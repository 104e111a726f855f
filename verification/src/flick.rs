use vstd::prelude::*;

use crate::rng::{index_from_state, lcg_next, next_index};

verus! {

pub const FLICK_DEMAND_TRIAL_TYPE: &'static str = "FLICK_DEMAND";
pub const FLICK_DEMAND_TASK_VERSION: &'static str = "1";

/// The commanded yaw offsets (whole degrees from world forward), ascending.
pub open spec fn yaw_set() -> Seq<i32> {
    seq![-90i32, -60i32, -30i32, -10i32, 10i32, 30i32, 60i32, 90i32]
}

/// The commanded yaw offsets of FLICK_DEMAND, in degrees.
pub fn flick_demand_yaw_set() -> (v: Vec<i32>)
    ensures
        v@ == yaw_set(),
{
    let mut v = Vec::new();
    v.push(-90);
    v.push(-60);
    v.push(-30);
    v.push(-10);
    v.push(10);
    v.push(30);
    v.push(60);
    v.push(90);
    assert(v@ =~= yaw_set());
    v
}

/// `s` without the elements equal to `x`, order kept.
pub open spec fn without(s: Seq<i32>, x: i32) -> Seq<i32>
    decreases s.len(),
{
    if s.len() == 0 {
        s
    } else if s.last() == x {
        without(s.drop_last(), x)
    } else {
        without(s.drop_last(), x).push(s.last())
    }
}

/// The offsets the next target may take: all but the previous one.
pub open spec fn yaw_choices(prev: Option<i32>) -> Seq<i32> {
    match prev {
        Some(p) => if without(yaw_set(), p).len() > 0 {
            without(yaw_set(), p)
        } else {
            yaw_set()
        },
        None => yaw_set(),
    }
}

proof fn lemma_without(s: Seq<i32>, x: i32)
    ensures
        forall|y: i32| without(s, x).contains(y) <==> (s.contains(y) && y != x),
        without(s, x).len() <= s.len(),
    decreases s.len(),
{
    if s.len() > 0 {
        lemma_without(s.drop_last(), x);
        let r = without(s.drop_last(), x);
        assert forall|y: i32| s.contains(y) <==> (s.drop_last().contains(y) || y == s.last()) by {
            if s.contains(y) {
                let j = choose|j: int| 0 <= j < s.len() && s[j] == y;
                if j < s.len() - 1 {
                    assert(s.drop_last()[j] == y);
                }
            }
            if s.drop_last().contains(y) {
                let j = choose|j: int| 0 <= j < s.len() - 1 && s.drop_last()[j] == y;
                assert(s[j] == y);
            }
        }
        if s.last() != x {
            assert forall|y: i32| r.push(s.last()).contains(y) <==> (r.contains(y) || y == s.last()) by {
                if r.push(s.last()).contains(y) {
                    let j = choose|j: int| 0 <= j <= r.len() && r.push(s.last())[j] == y;
                    if j < r.len() {
                        assert(r[j] == y);
                    }
                }
                if r.contains(y) {
                    let j = choose|j: int| 0 <= j < r.len() && r[j] == y;
                    assert(r.push(s.last())[j] == y);
                }
                if y == s.last() {
                    assert(r.push(s.last())[r.len() as int] == y);
                }
            }
        }
    }
}

proof fn lemma_choices_nonempty(p: i32)
    ensures
        without(yaw_set(), p).len() > 0,
{
    lemma_without(yaw_set(), p);
    let w = without(yaw_set(), p);
    let q: i32 = if p != 90i32 { 90i32 } else { -90i32 };
    assert(yaw_set()[0] == -90i32);
    assert(yaw_set()[7] == 90i32);
    assert(yaw_set().contains(q));
    assert(w.contains(q));
}

proof fn lemma_choices(prev: Option<i32>)
    ensures
        0 < yaw_choices(prev).len() <= 8,
        forall|y: i32|
            yaw_choices(prev).contains(y) ==> yaw_set().contains(y) && prev != Some(y),
{
    match prev {
        Some(p) => {
            lemma_without(yaw_set(), p);
            lemma_choices_nonempty(p);
        },
        None => {},
    }
}

/// Draw the next commanded yaw offset, never repeating `prev`.
pub fn next_commanded_yaw(rng: &mut u64, prev: Option<i32>) -> (y: i32)
    ensures
        *final(rng) == lcg_next(*old(rng)),
        y == yaw_choices(prev)[index_from_state(*final(rng), yaw_choices(prev).len()) as int],
        yaw_set().contains(y),
        prev matches Some(p) ==> y != p,
{
    let set = flick_demand_yaw_set();
    let mut choices: Vec<i32> = Vec::new();
    match prev {
        Some(p) => {
            let mut k: usize = 0;
            while k < set.len()
                invariant
                    set@ == yaw_set(),
                    k <= set@.len(),
                    choices@ == without(set@.take(k as int), p),
                decreases set.len() - k,
            {
                assert(set@.take(k + 1).drop_last() =~= set@.take(k as int));
                if set[k] != p {
                    choices.push(set[k]);
                }
                k = k + 1;
            }
            assert(set@.take(8) =~= set@);
        },
        None => {},
    }
    if choices.len() == 0 {
        choices = set;
    }
    proof {
        lemma_choices(prev);
        assert(choices@ == yaw_choices(prev));
    }
    let i = next_index(rng, choices.len());
    let y = choices[i];
    assert(choices@.contains(y));
    y
}

} // verus!
