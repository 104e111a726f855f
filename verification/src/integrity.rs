use vstd::prelude::*;

use crate::types::{InputIntegrityReport, MouseSample};

verus! {

/// `x` clamped to the `u64` range from above, as saturating counters do.
pub open spec fn sat_u64(x: int) -> u64 {
    if x > u64::MAX {
        u64::MAX
    } else {
        x as u64
    }
}

/// The highest sequence number in a non-empty `s`.
pub open spec fn max_seq(s: Seq<MouseSample>) -> u64
    decreases s.len(),
{
    if s.len() <= 1 {
        if s.len() == 1 {
            s[0].sequence_number
        } else {
            0
        }
    } else {
        let m = max_seq(s.drop_last());
        if s.last().sequence_number > m {
            s.last().sequence_number
        } else {
            m
        }
    }
}

/// Number of samples (after the first) that repeat the highest sequence
/// number seen before them.
pub open spec fn duplicate_count(s: Seq<MouseSample>) -> nat
    decreases s.len(),
{
    if s.len() < 2 {
        0
    } else {
        duplicate_count(s.drop_last()) + if s.last().sequence_number == max_seq(s.drop_last()) {
            1nat
        } else {
            0nat
        }
    }
}

/// Number of samples whose sequence number is below the highest seen before
/// them.
pub open spec fn out_of_order_count(s: Seq<MouseSample>) -> nat
    decreases s.len(),
{
    if s.len() < 2 {
        0
    } else {
        out_of_order_count(s.drop_last()) + if s.last().sequence_number < max_seq(s.drop_last()) {
            1nat
        } else {
            0nat
        }
    }
}

/// Total number of sequence numbers skipped when a sample moves past the
/// highest number seen before it.
pub open spec fn gap_total(s: Seq<MouseSample>) -> nat
    decreases s.len(),
{
    if s.len() < 2 {
        0
    } else {
        let prev = max_seq(s.drop_last());
        let cur = s.last().sequence_number;
        gap_total(s.drop_last()) + if cur > prev {
            (cur - prev - 1) as nat
        } else {
            0nat
        }
    }
}

/// Number of consecutive pairs whose timestamp went backwards.
pub open spec fn regression_count(s: Seq<MouseSample>) -> nat
    decreases s.len(),
{
    if s.len() < 2 {
        0
    } else {
        regression_count(s.drop_last()) + if s.last().timestamp_ns < s[s.len() - 2].timestamp_ns {
            1nat
        } else {
            0nat
        }
    }
}

/// The report owed for a stream that delivered `s`, in order.
pub open spec fn report_for(s: Seq<MouseSample>) -> InputIntegrityReport {
    InputIntegrityReport {
        samples_received: sat_u64(s.len() as int),
        sequence_gaps: sat_u64(gap_total(s) as int),
        duplicate_sequences: sat_u64(duplicate_count(s) as int),
        out_of_order_samples: sat_u64(out_of_order_count(s) as int),
        timestamp_regressions: sat_u64(regression_count(s) as int),
    }
}

/// Watches the raw sample stream for gaps, repeats, reordering and clock
/// regressions. Its view is the sequence of samples observed since the last
/// reset.
pub struct IntegrityTracker {
    highest_sequence: Option<u64>,
    last_timestamp_ns: Option<u64>,
    samples_received: u64,
    sequence_gaps: u64,
    duplicate_sequences: u64,
    out_of_order_samples: u64,
    timestamp_regressions: u64,
    history: Ghost<Seq<MouseSample>>,
}

impl View for IntegrityTracker {
    type V = Seq<MouseSample>;

    closed spec fn view(&self) -> Seq<MouseSample> {
        self.history@
    }
}

impl IntegrityTracker {
    /// The counters agree with the observed history.
    pub closed spec fn wf(&self) -> bool {
        let h = self.history@;
        &&& self.samples_received == sat_u64(h.len() as int)
        &&& self.sequence_gaps == sat_u64(gap_total(h) as int)
        &&& self.duplicate_sequences == sat_u64(duplicate_count(h) as int)
        &&& self.out_of_order_samples == sat_u64(out_of_order_count(h) as int)
        &&& self.timestamp_regressions == sat_u64(regression_count(h) as int)
        &&& (h.len() == 0 ==> self.highest_sequence is None && self.last_timestamp_ns is None)
        &&& (h.len() > 0 ==> self.highest_sequence == Some(max_seq(h))
            && self.last_timestamp_ns == Some(h.last().timestamp_ns))
    }

    /// A tracker that has seen nothing.
    pub fn new() -> (t: Self)
        ensures
            t.wf(),
            t@ == Seq::<MouseSample>::empty(),
    {
        IntegrityTracker {
            highest_sequence: None,
            last_timestamp_ns: None,
            samples_received: 0,
            sequence_gaps: 0,
            duplicate_sequences: 0,
            out_of_order_samples: 0,
            timestamp_regressions: 0,
            history: Ghost(Seq::empty()),
        }
    }

    /// Record one sample from the stream. Sequence numbers are judged
    /// against the highest one seen so far: equal is a duplicate, lower is
    /// out of order, higher skips the numbers in between. Timestamps are
    /// judged against the previous sample.
    pub fn observe(&mut self, sample: &MouseSample)
        requires
            old(self).wf(),
        ensures
            final(self).wf(),
            final(self)@ == old(self)@.push(*sample),
    {
        let ghost h = self.history@;
        let ghost h2 = h.push(*sample);
        assert(h2.drop_last() =~= h);
        self.samples_received = self.samples_received.saturating_add(1);

        let seq = sample.sequence_number;
        match self.highest_sequence {
            Some(highest) => {
                if seq == highest {
                    self.duplicate_sequences = self.duplicate_sequences.saturating_add(1);
                } else if seq < highest {
                    self.out_of_order_samples = self.out_of_order_samples.saturating_add(1);
                } else {
                    self.sequence_gaps = self.sequence_gaps.saturating_add(seq - highest - 1);
                    self.highest_sequence = Some(seq);
                }
            },
            None => {
                self.highest_sequence = Some(seq);
            },
        }
        match self.last_timestamp_ns {
            Some(last_timestamp_ns) => {
                if sample.timestamp_ns < last_timestamp_ns {
                    self.timestamp_regressions = self.timestamp_regressions.saturating_add(1);
                }
            },
            None => {},
        }
        self.last_timestamp_ns = Some(sample.timestamp_ns);
        self.history = Ghost(h2);
    }

    /// The counters accumulated since the last reset.
    pub fn report(&self) -> (r: InputIntegrityReport)
        requires
            self.wf(),
        ensures
            r == report_for(self@),
    {
        InputIntegrityReport {
            samples_received: self.samples_received,
            sequence_gaps: self.sequence_gaps,
            duplicate_sequences: self.duplicate_sequences,
            out_of_order_samples: self.out_of_order_samples,
            timestamp_regressions: self.timestamp_regressions,
        }
    }

    /// Forget everything observed so far.
    pub fn reset(&mut self)
        ensures
            final(self).wf(),
            final(self)@ == Seq::<MouseSample>::empty(),
    {
        *self = Self::new();
    }
}

impl Default for IntegrityTracker {
    fn default() -> (t: Self)
        ensures
            t.wf(),
            t@ == Seq::<MouseSample>::empty(),
    {
        Self::new()
    }
}

} // verus!
