use vstd::prelude::*;

use crate::segment::MotionPoint;
use crate::trial::sat_sub;

verus! {

/// The samples of `pts` timed within `[lo, hi]`, in order.
pub open spec fn within(pts: Seq<MotionPoint>, lo: u64, hi: u64) -> Seq<MotionPoint>
    decreases pts.len(),
{
    if pts.len() == 0 {
        Seq::empty()
    } else {
        let r = within(pts.drop_last(), lo, hi);
        if lo <= pts.last().timestamp_ns && pts.last().timestamp_ns <= hi {
            r.push(pts.last())
        } else {
            r
        }
    }
}

/// Walking back from `i` over samples that are not settled, the index where
/// the walk stops: a settled sample, or the first sample.
pub open spec fn skip_active(c: Seq<MotionPoint>, i: int) -> int
    decreases i,
{
    if i > 0 && !c[i].settled {
        skip_active(c, i - 1)
    } else {
        i
    }
}

/// Walking back from `i` over settled samples, the index where the walk
/// stops: a sample that is not settled, or the first sample.
pub open spec fn skip_settled(c: Seq<MotionPoint>, i: int) -> int
    decreases i,
{
    if i > 0 && c[i].settled {
        skip_settled(c, i - 1)
    } else {
        i
    }
}

/// Walking back from `i`, the end index of the first run of settled samples
/// (not counting the first sample) that lasted at least `settle_ns`.
pub open spec fn completed_settle(c: Seq<MotionPoint>, i: int, settle_ns: u64) -> Option<int>
    decreases i,
{
    if i <= 0 {
        None
    } else {
        let e = skip_active(c, i);
        if e <= 0 || e > i {
            None
        } else {
            let s = skip_settled(c, e);
            if s < 0 || s >= e {
                None
            } else if sat_sub(c[e].timestamp_ns as int, c[s + 1].timestamp_ns as int) >= settle_ns {
                Some(e)
            } else {
                completed_settle(c, s, settle_ns)
            }
        }
    }
}

/// The first index at or after `k` whose sample reached the onset speed.
pub open spec fn first_onset_from(c: Seq<MotionPoint>, k: int) -> Option<int>
    decreases c.len() - k,
{
    if k < 0 || k >= c.len() {
        None
    } else if c[k].onset {
        Some(k)
    } else {
        first_onset_from(c, k + 1)
    }
}

/// Where the motion segment of the onset sample `k` starts: at the sample
/// before it, or at it when it is the first.
pub open spec fn segment_start(c: Seq<MotionPoint>, k: int) -> u64 {
    if k > 0 {
        c[k - 1].timestamp_ns
    } else {
        c[k].timestamp_ns
    }
}

/// When the acquisition of the shot at `shot_ns` began, within the movement
/// that started at `cand_start_ns`. Over the movement's samples up to the
/// shot: walking back from the shot, after the first settle that lasted
/// `settle_ns`, the segment of the first onset (or the settle's end when the
/// view stayed settled through the shot, capped at the shot); with no such
/// settle, the segment of the first onset after the last settled sample, not
/// before the movement start; the movement start when nothing applies.
pub open spec fn acquisition_start(pts: Seq<MotionPoint>, cand_start_ns: u64, shot_ns: u64, settle_ns: u64) -> u64 {
    let c = within(pts, cand_start_ns, shot_ns);
    let n = c.len() as int;
    if n == 0 {
        cand_start_ns
    } else {
        match completed_settle(c, n - 1, settle_ns) {
            Some(e) => match first_onset_from(c, e + 1) {
                Some(k) => segment_start(c, k),
                None => if c[e].timestamp_ns <= shot_ns {
                    c[e].timestamp_ns
                } else {
                    shot_ns
                },
            },
            None => {
                let j = skip_active(c, n - 1);
                match first_onset_from(c, j) {
                    Some(k) => if segment_start(c, k) >= cand_start_ns {
                        segment_start(c, k)
                    } else {
                        cand_start_ns
                    },
                    None => cand_start_ns,
                }
            },
        }
    }
}

fn select_within(pts: &[MotionPoint], lo: u64, hi: u64) -> (c: Vec<MotionPoint>)
    ensures
        c@ == within(pts@, lo, hi),
{
    let mut c: Vec<MotionPoint> = Vec::new();
    let mut k: usize = 0;
    while k < pts.len()
        invariant
            k <= pts@.len(),
            c@ == within(pts@.take(k as int), lo, hi),
        decreases pts.len() - k,
    {
        assert(pts@.take(k + 1).drop_last() =~= pts@.take(k as int));
        let p = pts[k];
        if lo <= p.timestamp_ns && p.timestamp_ns <= hi {
            c.push(p);
        }
        k = k + 1;
    }
    assert(pts@.take(pts@.len() as int) =~= pts@);
    c
}

proof fn lemma_skip_active(c: Seq<MotionPoint>, i: int)
    requires
        0 <= i < c.len(),
    ensures
        0 <= skip_active(c, i) <= i,
        skip_active(c, i) > 0 ==> c[skip_active(c, i)].settled,
    decreases i,
{
    if i > 0 && !c[i].settled {
        lemma_skip_active(c, i - 1);
    }
}

proof fn lemma_skip_settled(c: Seq<MotionPoint>, i: int)
    requires
        0 <= i < c.len(),
    ensures
        0 <= skip_settled(c, i) <= i,
    decreases i,
{
    if i > 0 && c[i].settled {
        lemma_skip_settled(c, i - 1);
    }
}

/// `c[s+1..=e]` is a whole run of settled samples within `c[..=i]`: `s` is
/// the first sample or a moving one, every sample after it through `e` is
/// settled, and the run does not continue past `e` before `i`.
pub open spec fn settled_run(c: Seq<MotionPoint>, s: int, e: int, i: int) -> bool {
    &&& 0 <= s < e <= i < c.len()
    &&& (s == 0 || !c[s].settled)
    &&& forall|m: int| s < m <= e ==> #[trigger] c[m].settled
    &&& (e == i || !c[e + 1].settled)
}

/// The run `c[s+1..=e]` lasted at least `settle_ns`.
pub open spec fn run_lasted(c: Seq<MotionPoint>, s: int, e: int, settle_ns: u64) -> bool {
    sat_sub(c[e].timestamp_ns as int, c[s + 1].timestamp_ns as int) >= settle_ns
}

proof fn lemma_skip_active_moving(c: Seq<MotionPoint>, i: int)
    requires
        0 <= i < c.len(),
    ensures
        forall|m: int| skip_active(c, i) < m <= i ==> !#[trigger] c[m].settled,
    decreases i,
{
    if i > 0 && !c[i].settled {
        lemma_skip_active_moving(c, i - 1);
    }
}

proof fn lemma_skip_settled_run(c: Seq<MotionPoint>, i: int)
    requires
        0 <= i < c.len(),
    ensures
        forall|m: int| skip_settled(c, i) < m <= i ==> #[trigger] c[m].settled,
        skip_settled(c, i) == 0 || !c[skip_settled(c, i)].settled,
    decreases i,
{
    if i > 0 && c[i].settled {
        lemma_skip_settled_run(c, i - 1);
    }
}

proof fn lemma_settled_run_unique(c: Seq<MotionPoint>, s1: int, s2: int, e: int, i1: int, i2: int)
    requires
        settled_run(c, s1, e, i1),
        settled_run(c, s2, e, i2),
    ensures
        s1 == s2,
{
    if s1 < s2 {
        assert(c[s2].settled);
    } else if s2 < s1 {
        assert(c[s1].settled);
    }
}

/// Walking back from the shot, a settle counts only when its whole run of
/// settled samples lasted at least `settle_ns`: the settle found is such a
/// run, and every later run before the shot was shorter; when none is found,
/// no run before the shot lasted that long.
pub proof fn law_completed_settle_lasted(c: Seq<MotionPoint>, i: int, settle_ns: u64)
    requires
        0 <= i < c.len(),
    ensures
        completed_settle(c, i, settle_ns) matches Some(e) ==> exists|s: int|
            settled_run(c, s, e, i) && #[trigger] run_lasted(c, s, e, settle_ns),
        completed_settle(c, i, settle_ns) matches Some(e) ==> forall|s: int, e2: int|
            settled_run(c, s, e2, i) && e < e2 ==> !#[trigger] run_lasted(c, s, e2, settle_ns),
        completed_settle(c, i, settle_ns) is None ==> forall|s: int, e2: int|
            settled_run(c, s, e2, i) ==> !#[trigger] run_lasted(c, s, e2, settle_ns),
    decreases i,
{
    if i > 0 {
        lemma_skip_active(c, i);
        lemma_skip_active_moving(c, i);
        let e0 = skip_active(c, i);
        // no run ends after e0
        assert forall|s: int, e2: int| settled_run(c, s, e2, i) implies e2 <= e0 by {
            if e2 > e0 {
                assert(c[e2].settled);
            }
        }
        if e0 > 0 {
            lemma_skip_settled(c, e0);
            lemma_skip_settled_run(c, e0);
            let s0 = skip_settled(c, e0);
            if s0 < e0 {
                assert(settled_run(c, s0, e0, i)) by {
                    if e0 < i {
                        assert(!c[e0 + 1].settled);
                    }
                }
                if !run_lasted(c, s0, e0, settle_ns) {
                    law_completed_settle_lasted(c, s0, settle_ns);
                    // runs within i are (s, e0) and the runs within s
                    assert forall|s2: int, e2: int| settled_run(c, s2, e2, i) && e2 != e0 implies settled_run(
                        c,
                        s2,
                        e2,
                        s0,
                    ) by {
                        if e2 > s0 {
                            if e2 < e0 {
                                assert(c[e2 + 1].settled);
                            }
                        }
                        if e2 == s0 {
                            assert(c[e2].settled);
                        }
                    }
                    assert forall|s2: int, e2: int| settled_run(c, s2, e2, s0) implies settled_run(c, s2, e2, i) by {
                        if e2 == s0 {
                            assert(c[e2].settled);
                        }
                    }
                    assert forall|s2: int| settled_run(c, s2, e0, i) implies !#[trigger] run_lasted(
                        c,
                        s2,
                        e0,
                        settle_ns,
                    ) by {
                        lemma_settled_run_unique(c, s0, s2, e0, i, i);
                    }
                    assert(completed_settle(c, i, settle_ns) == completed_settle(c, s0, settle_ns));
                    if let Some(e1) = completed_settle(c, s0, settle_ns) {
                        let s1 = choose|s1: int| settled_run(c, s1, e1, s0) && #[trigger] run_lasted(c, s1, e1, settle_ns);
                        assert(settled_run(c, s1, e1, i));
                        assert(run_lasted(c, s1, e1, settle_ns));
                        assert(completed_settle(c, i, settle_ns)->0 == e1);
                        assert(settled_run(c, s1, completed_settle(c, i, settle_ns)->0, i));
                        assert(run_lasted(c, s1, completed_settle(c, i, settle_ns)->0, settle_ns));
                    }
                } else {
                    assert(completed_settle(c, i, settle_ns) == Some(e0));
                    assert(settled_run(c, s0, e0, i) && run_lasted(c, s0, e0, settle_ns));
                    assert(settled_run(c, s0, completed_settle(c, i, settle_ns)->0, i));
                    assert(run_lasted(c, s0, completed_settle(c, i, settle_ns)->0, settle_ns));
                    assert forall|s2: int, e2: int|
                        settled_run(c, s2, e2, i) && e0 < e2 implies !#[trigger] run_lasted(c, s2, e2, settle_ns) by {}
                }
            } else {
                assert(completed_settle(c, i, settle_ns) is None);
            }
        } else {
            assert(completed_settle(c, i, settle_ns) is None);
            assert forall|s: int, e2: int| settled_run(c, s, e2, i) implies !#[trigger] run_lasted(c, s, e2, settle_ns) by {
                assert(e2 <= 0);
            }
        }
    } else {
        assert(completed_settle(c, i, settle_ns) is None);
        assert forall|s: int, e2: int| settled_run(c, s, e2, i) implies !#[trigger] run_lasted(c, s, e2, settle_ns) by {}
    }
}

/// The acquisition start follows the latest settle before the shot that
/// lasted `settle_ns`: when the samples between the movement start and the
/// shot hold such a run ending at `e` (and no later run lasted as long), the
/// acquisition began where the segment of the first onset after `e` begins,
/// or at the settle's end (not after the shot) when the view stayed settled.
/// Shorter runs of settled samples never decide it: when no run lasted that
/// long, the start comes from the active bout that ends at the shot, not
/// before the movement start.
pub proof fn law_acquisition_follows_lasting_settle(
    pts: Seq<MotionPoint>,
    cand_start_ns: u64,
    shot_ns: u64,
    settle_ns: u64,
)
    ensures
        ({
            let c = within(pts, cand_start_ns, shot_ns);
            let n = c.len() as int;
            let r = acquisition_start(pts, cand_start_ns, shot_ns, settle_ns);
            &&& n == 0 ==> r == cand_start_ns
            &&& forall|s: int, e: int|
                n > 0 && settled_run(c, s, e, n - 1) && #[trigger] run_lasted(c, s, e, settle_ns) && (forall|s2: int, e2: int|
                    settled_run(c, s2, e2, n - 1) && e < e2 ==> !#[trigger] run_lasted(c, s2, e2, settle_ns))
                    ==> r == match first_onset_from(c, e + 1) {
                    Some(k) => segment_start(c, k),
                    None => if c[e].timestamp_ns <= shot_ns {
                        c[e].timestamp_ns
                    } else {
                        shot_ns
                    },
                }
            &&& (n > 0 && forall|s: int, e: int| settled_run(c, s, e, n - 1) ==> !#[trigger] run_lasted(c, s, e, settle_ns))
                ==> r == match first_onset_from(c, skip_active(c, n - 1)) {
                Some(k) => if segment_start(c, k) >= cand_start_ns {
                    segment_start(c, k)
                } else {
                    cand_start_ns
                },
                None => cand_start_ns,
            }
        }),
{
    let c = within(pts, cand_start_ns, shot_ns);
    let n = c.len() as int;
    if n > 0 {
        law_completed_settle_lasted(c, n - 1, settle_ns);
        assert forall|s: int, e: int|
            settled_run(c, s, e, n - 1) && #[trigger] run_lasted(c, s, e, settle_ns) && (forall|s2: int, e2: int|
                settled_run(c, s2, e2, n - 1) && e < e2 ==> !#[trigger] run_lasted(c, s2, e2, settle_ns))
                implies completed_settle(c, n - 1, settle_ns) == Some(e) by {
            match completed_settle(c, n - 1, settle_ns) {
                Some(e1) => {
                    let s1 = choose|s1: int| settled_run(c, s1, e1, n - 1) && #[trigger] run_lasted(c, s1, e1, settle_ns);
                    if e < e1 {
                        assert(!run_lasted(c, s1, e1, settle_ns));
                    }
                    if e1 < e {
                        assert(!run_lasted(c, s, e, settle_ns));
                    }
                },
                None => {
                    assert(!run_lasted(c, s, e, settle_ns));
                },
            }
        }
        if forall|s: int, e: int| settled_run(c, s, e, n - 1) ==> !#[trigger] run_lasted(c, s, e, settle_ns) {
            if let Some(e1) = completed_settle(c, n - 1, settle_ns) {
                let s1 = choose|s1: int| settled_run(c, s1, e1, n - 1) && #[trigger] run_lasted(c, s1, e1, settle_ns);
                assert(!run_lasted(c, s1, e1, settle_ns));
            }
        }
    }
}

fn find_onset(c: &Vec<MotionPoint>, from: usize) -> (r: Option<usize>)
    ensures
        r matches Some(k) ==> first_onset_from(c@, from as int) == Some(k as int) && from <= k < c@.len(),
        r is None ==> first_onset_from(c@, from as int) is None,
{
    let mut k = from;
    if k >= c.len() {
        return None;
    }
    while k < c.len()
        invariant
            from <= k,
            first_onset_from(c@, from as int) == first_onset_from(c@, k as int),
        decreases c.len() - k,
    {
        if c[k].onset {
            return Some(k);
        }
        k = k + 1;
    }
    None
}

fn segment_start_of(c: &Vec<MotionPoint>, k: usize) -> (t: u64)
    requires
        k < c@.len(),
    ensures
        t == segment_start(c@, k as int),
{
    if k > 0 {
        c[k - 1].timestamp_ns
    } else {
        c[k].timestamp_ns
    }
}

/// When the acquisition of the shot at `shot_ns` began, as
/// `acquisition_start` says.
pub fn local_acquisition_start_ns(pts: &[MotionPoint], cand_start_ns: u64, shot_ns: u64, settle_ns: u64) -> (r: u64)
    ensures
        r == acquisition_start(pts@, cand_start_ns, shot_ns, settle_ns),
{
    let c = select_within(pts, cand_start_ns, shot_ns);
    if c.len() == 0 {
        return cand_start_ns;
    }
    let n = c.len();
    let ghost cs = c@;
    // Walk back from the click: find a completed settle, then the following onset.
    let mut i: usize = n - 1;
    let mut found: Option<usize> = None;
    while i > 0
        invariant_except_break
            found is None,
        invariant
            cs == c@,
            n == cs.len(),
            i < n,
            found is None ==> completed_settle(cs, i as int, settle_ns) == completed_settle(
                cs,
                n - 1,
                settle_ns,
            ),
        ensures
            found matches Some(e) ==> completed_settle(cs, n - 1, settle_ns) == Some(e as int) && 0 < e < n,
            found is None ==> completed_settle(cs, n - 1, settle_ns) is None,
        decreases i,
    {
        proof {
            lemma_skip_active(cs, i as int);
        }
        let ghost i0 = i as int;
        while i > 0 && !c[i].settled
            invariant
                cs == c@,
                n == cs.len(),
                0 <= i <= i0 < n,
                skip_active(cs, i as int) == skip_active(cs, i0),
            decreases i,
        {
            i = i - 1;
        }
        if i == 0 {
            break;
        }
        let settle_end_i = i;
        proof {
            lemma_skip_settled(cs, i as int);
        }
        let mut settle_start_t = c[i].timestamp_ns;
        while i > 0 && c[i].settled
            invariant
                cs == c@,
                n == cs.len(),
                0 <= i <= settle_end_i < n,
                skip_settled(cs, i as int) == skip_settled(cs, settle_end_i as int),
                i < settle_end_i ==> settle_start_t == cs[i + 1].timestamp_ns,
                i == settle_end_i ==> settle_start_t == cs[i as int].timestamp_ns,
                i == settle_end_i ==> cs[i as int].settled,
            decreases i,
        {
            settle_start_t = c[i].timestamp_ns;
            i = i - 1;
        }
        let settle_end_t = c[settle_end_i].timestamp_ns;
        if settle_end_t.saturating_sub(settle_start_t) >= settle_ns {
            found = Some(settle_end_i);
            break;
        }
        if i == 0 {
            break;
        }
    }
    match found {
        Some(e) => {
            match find_onset(&c, e + 1) {
                Some(k) => segment_start_of(&c, k),
                None => {
                    let t = c[e].timestamp_ns;
                    if t <= shot_ns {
                        t
                    } else {
                        shot_ns
                    }
                },
            }
        },
        None => {
            // No completed settle before the shot: the start of the active
            // bout ending at the shot, else the movement start.
            let mut j: usize = n - 1;
            while j > 0 && !c[j].settled
                invariant
                    cs == c@,
                    n == cs.len(),
                    j < n,
                    skip_active(cs, j as int) == skip_active(cs, n - 1),
                decreases j,
            {
                j = j - 1;
            }
            match find_onset(&c, j) {
                Some(k) => {
                    let s = segment_start_of(&c, k);
                    if s >= cand_start_ns {
                        s
                    } else {
                        cand_start_ns
                    }
                },
                None => cand_start_ns,
            }
        },
    }
}

} // verus!
