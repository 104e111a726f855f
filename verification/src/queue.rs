use vstd::prelude::*;

use crate::types::MouseSample;

verus! {

/// `x` reduced modulo 2^64.
pub open spec fn wrap_u64(x: int) -> u64 {
    (x % 0x1_0000_0000_0000_0000) as u64
}

/// Timestamped raw mouse samples waiting to be drained, numbered in arrival
/// order from 1 (the counter wraps after `u64::MAX`).
pub struct MouseQueue {
    samples: Vec<MouseSample>,
    next_sequence: u64,
    /// Every sample pushed since the queue was made, oldest first.
    history: Ghost<Seq<MouseSample>>,
}

impl MouseQueue {
    /// Samples waiting, oldest first.
    pub closed spec fn pending(&self) -> Seq<MouseSample> {
        self.samples@
    }

    /// Sequence number the next sample will get.
    pub closed spec fn next_number(&self) -> u64 {
        self.next_sequence
    }

    /// Every sample pushed since `new()`, oldest first.
    pub closed spec fn pushed(&self) -> Seq<MouseSample> {
        self.history@
    }

    /// The samples already handed out by the drains since `new()`, in the
    /// order the drains returned them.
    pub open spec fn drained(&self) -> Seq<MouseSample> {
        self.pushed().take(self.pushed().len() - self.pending().len())
    }

    /// The k-th push (counting from 1) carried sequence number k, wrapping;
    /// the waiting samples are the latest pushes; the next push gets the
    /// number after the last.
    pub closed spec fn wf(&self) -> bool {
        &&& self.samples@.len() <= self.history@.len()
        &&& self.samples@ == self.history@.skip(self.history@.len() - self.samples@.len())
        &&& forall|i: int|
            0 <= i < self.history@.len() ==> (#[trigger] self.history@[i]).sequence_number == wrap_u64(i + 1)
        &&& self.next_sequence == wrap_u64(self.history@.len() as int + 1)
    }

    pub fn new() -> (q: Self)
        ensures
            q.wf(),
            q.pending() == Seq::<MouseSample>::empty(),
            q.pushed() == Seq::<MouseSample>::empty(),
            q.next_number() == 1,
    {
        let q = MouseQueue { samples: Vec::new(), next_sequence: 1, history: Ghost(Seq::empty()) };
        assert(q.samples@ =~= q.history@.skip(0));
        q
    }

    /// Append one raw report, numbering it with the next sequence number.
    pub fn push_raw(&mut self, dx: i32, dy: i32, buttons: u32, timestamp_ns: u64)
        requires
            old(self).wf(),
        ensures
            final(self).wf(),
            final(self).pending() == old(self).pending().push(
                MouseSample {
                    timestamp_ns,
                    dx,
                    dy,
                    buttons,
                    sequence_number: old(self).next_number(),
                },
            ),
            final(self).pushed() == old(self).pushed().push(
                MouseSample {
                    timestamp_ns,
                    dx,
                    dy,
                    buttons,
                    sequence_number: old(self).next_number(),
                },
            ),
            final(self).next_number() == wrap_u64(old(self).next_number() + 1),
    {
        self.push_sample(dx, dy, buttons, timestamp_ns);
    }

    /// Append one raw report and return it as queued.
    pub fn push_sample(&mut self, dx: i32, dy: i32, buttons: u32, timestamp_ns: u64) -> (s: MouseSample)
        requires
            old(self).wf(),
        ensures
            final(self).wf(),
            s == (MouseSample {
                timestamp_ns,
                dx,
                dy,
                buttons,
                sequence_number: old(self).next_number(),
            }),
            final(self).pending() == old(self).pending().push(s),
            final(self).pushed() == old(self).pushed().push(s),
            final(self).next_number() == wrap_u64(old(self).next_number() + 1),
    {
        let ghost old_samples = self.samples@;
        let ghost h = self.history@;
        let ghost n = self.next_sequence;
        let sequence_number = self.next_sequence;
        self.next_sequence = self.next_sequence.wrapping_add(1);
        let sample = MouseSample { timestamp_ns, dx, dy, buttons, sequence_number };
        self.samples.push(sample);
        self.history = Ghost(h.push(sample));
        proof {
            assert(self.next_sequence == wrap_u64(n + 1));
            lemma_wrap_congruent(h.len() as int + 1, n as int, -1, 0);
            assert(self.samples@ =~= self.history@.skip(self.history@.len() - self.samples@.len()));
            assert forall|i: int| 0 <= i < self.history@.len() implies (#[trigger] self.history@[i]).sequence_number
                == wrap_u64(i + 1) by {
                if i < h.len() {
                    assert(self.history@[i] == h[i]);
                }
            }
        }
        sample
    }

    /// Take every waiting sample, oldest first, leaving the queue empty.
    pub fn drain_all(&mut self) -> (r: Vec<MouseSample>)
        requires
            old(self).wf(),
        ensures
            final(self).wf(),
            r@ == old(self).pending(),
            final(self).pending() == Seq::<MouseSample>::empty(),
            final(self).pushed() == old(self).pushed(),
            final(self).drained() == old(self).drained() + r@,
            final(self).next_number() == old(self).next_number(),
    {
        let mut taken: Vec<MouseSample> = Vec::new();
        std::mem::swap(&mut taken, &mut self.samples);
        proof {
            let h = self.history@;
            assert(self.samples@ =~= h.skip(h.len() as int));
            assert(h.take(h.len() as int) =~= h.take(h.len() - taken@.len()) + taken@);
        }
        taken
    }
}

impl Default for MouseQueue {
    fn default() -> (q: Self)
        ensures
            q.wf(),
            q.pending() == Seq::<MouseSample>::empty(),
            q.next_number() == 1,
    {
        Self::new()
    }
}

proof fn lemma_wrap_shift(x: int)
    ensures
        wrap_u64(x) == wrap_u64(x + 0x1_0000_0000_0000_0000),
{
}

proof fn lemma_wrap_small(x: int)
    requires
        0 <= x <= u64::MAX,
    ensures
        wrap_u64(x) == x,
{
}

/// When `w` is `a` reduced modulo 2^64, offsets from `w` and from `a` reduce alike.
proof fn lemma_wrap_congruent(a: int, w: int, len: int, i: int)
    requires
        w == wrap_u64(a),
    ensures
        wrap_u64(w - len + i) == wrap_u64(a - len + i),
{
    let m = 0x1_0000_0000_0000_0000int;
    assert(w == a % m);
    vstd::arithmetic::div_mod::lemma_fundamental_div_mod(a, m);
    let q = a / m;
    assert(a == m * q + w);
    assert(w - len + i == (a - len + i) + m * (-q));
    vstd::arithmetic::div_mod::lemma_mod_multiples_vanish(-q, a - len + i, m);
}

/// Draining returns exactly the samples pushed since the last drain, in push
/// order, numbered consecutively from the queue's numbering at that time.
pub proof fn law_drain_order(q: MouseQueue)
    requires
        q.wf(),
    ensures
        forall|i: int, j: int|
            0 <= i < j < q.pending().len() ==> wrap_u64(
                q.pending()[i].sequence_number + (j - i),
            ) == q.pending()[j].sequence_number,
{
    assert forall|i: int, j: int| 0 <= i < j < q.pending().len() implies wrap_u64(
        q.pending()[i].sequence_number + (j - i),
    ) == q.pending()[j].sequence_number by {
        let h = q.pushed();
        let d = h.len() - q.pending().len();
        assert(q.pending()[i] == h[d + i]);
        assert(q.pending()[j] == h[d + j]);
        let si = h[d + i].sequence_number as int;
        assert(si == wrap_u64(d + i + 1));
        lemma_wrap_congruent(d + i + 1, si, 0 - (j - i), 0);
    }
}

/// Numbering since `new()`: the k-th sample pushed carries sequence number
/// k (wrapping after `u64::MAX`), and never twice; what the drains have
/// returned, concatenated, followed by what still waits, is every pushed
/// sample in push order, so the drains see 1, 2, 3, ... with no gap; the
/// next push gets the number after the last.
pub proof fn law_push_numbering(q: MouseQueue)
    requires
        q.wf(),
    ensures
        forall|k: int|
            1 <= k <= q.pushed().len() ==> (#[trigger] q.pushed()[k - 1]).sequence_number == wrap_u64(k),
        q.drained() + q.pending() == q.pushed(),
        q.next_number() == wrap_u64(q.pushed().len() as int + 1),
{
    let h = q.pushed();
    assert(q.drained() + q.pending() =~= h);
    assert forall|k: int| 1 <= k <= h.len() implies (#[trigger] h[k - 1]).sequence_number == wrap_u64(k) by {
        assert(h[k - 1].sequence_number == wrap_u64((k - 1) + 1));
    }
}

} // verus!
