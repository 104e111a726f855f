use vstd::prelude::*;

use crate::trial::{sat_add_u64, sat_sub};

verus! {

/// Data-quality flags raised by the analysis.
#[derive(Debug, Clone, Copy, PartialEq, Eq, Structural)]
pub enum QualityFlag {
    OrphanShot,
    AmbiguousShot,
    MultiShotMovement,
    NoSettle,
    InsufficientTelemetry,
    TimestampGap,
    CameraInputMismatch,
    ReconstructionDiscontinuity,
    ZeroAcquisitionDuration,
}

/// One reconstructed camera sample, reduced to what segmentation reads: its
/// time, whether its angular speed reached the onset threshold, and whether it
/// was below the settle threshold.
#[derive(Debug, Clone, Copy, PartialEq, Eq, Structural)]
pub struct MotionPoint {
    pub timestamp_ns: u64,
    pub onset: bool,
    pub settled: bool,
}

/// The time thresholds of segmentation, in nanoseconds.
#[derive(Debug, Clone, Copy, PartialEq, Eq, Structural)]
pub struct SegmentConfig {
    pub settle_ns: u64,
    pub min_movement_ns: u64,
    pub shot_attach_ns: u64,
    pub post_click_max_ns: u64,
}

pub open spec fn ms_to_ns(ms: u64) -> u64 {
    if ms * 1_000_000 > u64::MAX {
        u64::MAX
    } else {
        (ms * 1_000_000) as u64
    }
}

/// Milliseconds to nanoseconds, saturating at `u64::MAX`.
pub fn ms_to_ns_sat(ms: u64) -> (ns: u64)
    ensures
        ns == ms_to_ns(ms),
{
    if ms > u64::MAX / 1_000_000 {
        u64::MAX
    } else {
        ms * 1_000_000
    }
}

impl SegmentConfig {
    /// Thresholds given in milliseconds (saturating on conversion).
    pub fn from_ms(settle_ms: u64, min_movement_ms: u64, shot_attach_ms: u64, post_click_max_ms: u64) -> (c: Self)
        ensures
            c.settle_ns == ms_to_ns(settle_ms),
            c.min_movement_ns == ms_to_ns(min_movement_ms),
            c.shot_attach_ns == ms_to_ns(shot_attach_ms),
            c.post_click_max_ns == ms_to_ns(post_click_max_ms),
    {
        SegmentConfig {
            settle_ns: ms_to_ns_sat(settle_ms),
            min_movement_ns: ms_to_ns_sat(min_movement_ms),
            shot_attach_ns: ms_to_ns_sat(shot_attach_ms),
            post_click_max_ns: ms_to_ns_sat(post_click_max_ms),
        }
    }

    /// Analysis version 2 thresholds: settle 80 ms, minimum movement 40 ms,
    /// shot attach 150 ms, post-click correction at most 300 ms.
    pub fn v1() -> (c: Self)
        ensures
            c.settle_ns == 80_000_000,
            c.min_movement_ns == 40_000_000,
            c.shot_attach_ns == 150_000_000,
            c.post_click_max_ns == 300_000_000,
    {
        Self::from_ms(80, 40, 150, 300)
    }
}

/// A movement detected in the camera timeline.
#[derive(Debug, Clone, PartialEq)]
pub struct MovementCandidate {
    pub id: u32,
    pub start_ns: u64,
    pub end_ns: u64,
    pub flags: Vec<QualityFlag>,
}

/// The value of a movement candidate.
pub struct CandidateView {
    pub id: u32,
    pub start_ns: u64,
    pub end_ns: u64,
    pub flags: Seq<QualityFlag>,
}

impl View for MovementCandidate {
    type V = CandidateView;

    open spec fn view(&self) -> CandidateView {
        CandidateView { id: self.id, start_ns: self.start_ns, end_ns: self.end_ns, flags: self.flags@ }
    }
}

pub open spec fn views(s: Seq<MovementCandidate>) -> Seq<CandidateView> {
    s.map_values(|c: MovementCandidate| c@)
}

// ---------------------------------------------------------------- detection

/// Where a movement that started before index `j` ends: scanning from `j`,
/// it ends at the first sample at which the speed has stayed below the
/// settle threshold for at least `settle_ns` (counted from the first sample
/// of the current run of settled samples), or at the last sample with the
/// second component true ("never settled").
pub open spec fn scan_end(pts: Seq<MotionPoint>, j: int, end_i: int, settle_start: Option<u64>, settle_ns: u64) -> (int, bool)
    decreases pts.len() - j,
{
    if j >= pts.len() || j < 0 {
        (end_i, true)
    } else if pts[j].settled {
        match settle_start {
            None => scan_end(pts, j + 1, j, Some(pts[j].timestamp_ns), settle_ns),
            Some(s0) => if sat_sub(pts[j].timestamp_ns as int, s0 as int) >= settle_ns {
                (j, false)
            } else {
                scan_end(pts, j + 1, j, Some(s0), settle_ns)
            },
        }
    } else {
        scan_end(pts, j + 1, j, None, settle_ns)
    }
}

proof fn lemma_scan_end_bounds(pts: Seq<MotionPoint>, j: int, end_i: int, s: Option<u64>, settle_ns: u64)
    requires
        0 <= end_i < pts.len(),
        end_i < j,
    ensures
        end_i <= scan_end(pts, j, end_i, s, settle_ns).0 < pts.len(),
    decreases pts.len() - j,
{
    if j < pts.len() {
        if pts[j].settled {
            match s {
                None => lemma_scan_end_bounds(pts, j + 1, j, Some(pts[j].timestamp_ns), settle_ns),
                Some(s0) => if sat_sub(pts[j].timestamp_ns as int, s0 as int) < settle_ns {
                    lemma_scan_end_bounds(pts, j + 1, j, Some(s0), settle_ns)
                },
            }
        } else {
            lemma_scan_end_bounds(pts, j + 1, j, None, settle_ns)
        }
    }
}

/// `s` can start the run of settled samples that follows the onset at `i`:
/// it is the first sample after the onset, or its predecessor was moving.
pub open spec fn opens_settle_run(pts: Seq<MotionPoint>, i: int, s: int) -> bool {
    s == i + 1 || !pts[s - 1].settled
}

/// Every sample from `s` through `k` is settled.
pub open spec fn settled_through(pts: Seq<MotionPoint>, s: int, k: int) -> bool {
    forall|m: int| s <= m <= k ==> #[trigger] pts[m].settled
}

/// After the onset at `i`, sample `k` completes a settle: the run of settled
/// samples that reaches `k` (started after the onset, with no moving sample
/// in between) began at an earlier sample at least `settle_ns` before `k`.
pub open spec fn completes_settle(pts: Seq<MotionPoint>, i: int, k: int, settle_ns: u64) -> bool {
    exists|s: int|
        #![trigger pts[s]]
        i < s < k && opens_settle_run(pts, i, s) && settled_through(pts, s, k) && sat_sub(
            pts[k].timestamp_ns as int,
            pts[s].timestamp_ns as int,
        ) >= settle_ns
}

proof fn lemma_settle_run_unique(pts: Seq<MotionPoint>, i: int, s1: int, s2: int, k: int)
    requires
        i < s1 <= k,
        i < s2 <= k,
        k < pts.len(),
        opens_settle_run(pts, i, s1),
        opens_settle_run(pts, i, s2),
        settled_through(pts, s1, k),
        settled_through(pts, s2, k),
    ensures
        s1 == s2,
{
    if s1 < s2 {
        assert(pts[s2 - 1].settled);
    } else if s2 < s1 {
        assert(pts[s1 - 1].settled);
    }
}

proof fn lemma_scan_end_settles(pts: Seq<MotionPoint>, i: int, j: int, st: Option<u64>, settle_ns: u64)
    requires
        0 <= i < j <= pts.len(),
        forall|k: int| i < k < j ==> !completes_settle(pts, i, k, settle_ns),
        st is None ==> opens_settle_run(pts, i, j),
        st matches Some(s0) ==> exists|s: int|
            #![trigger pts[s]]
            i < s < j && opens_settle_run(pts, i, s) && settled_through(pts, s, j - 1) && pts[s].timestamp_ns
                == s0,
    ensures
        ({
            let (e, no_settle) = scan_end(pts, j, j - 1, st, settle_ns);
            &&& j - 1 <= e < pts.len()
            &&& !no_settle ==> i < e && completes_settle(pts, i, e, settle_ns)
            &&& forall|k: int| i < k < e ==> !completes_settle(pts, i, k, settle_ns)
            &&& no_settle ==> e == pts.len() - 1 && forall|k: int|
                i < k < pts.len() ==> !completes_settle(pts, i, k, settle_ns)
        }),
    decreases pts.len() - j,
{
    if j < pts.len() {
        if pts[j].settled {
            match st {
                None => {
                    assert(!completes_settle(pts, i, j, settle_ns)) by {
                        if completes_settle(pts, i, j, settle_ns) {
                            let s = choose|s: int|
                                #![trigger pts[s]]
                                i < s < j && opens_settle_run(pts, i, s) && settled_through(pts, s, j)
                                    && sat_sub(pts[j].timestamp_ns as int, pts[s].timestamp_ns as int) >= settle_ns;
                            assert(pts[j - 1].settled);
                        }
                    }
                    assert(settled_through(pts, j, j));
                    assert(pts[j].timestamp_ns == pts[j].timestamp_ns);
                    lemma_scan_end_settles(pts, i, j + 1, Some(pts[j].timestamp_ns), settle_ns);
                },
                Some(s0) => {
                    let s = choose|s: int|
                        #![trigger pts[s]]
                        i < s < j && opens_settle_run(pts, i, s) && settled_through(pts, s, j - 1)
                            && pts[s].timestamp_ns == s0;
                    assert(settled_through(pts, s, j));
                    if sat_sub(pts[j].timestamp_ns as int, s0 as int) >= settle_ns {
                        assert(completes_settle(pts, i, j, settle_ns));
                    } else {
                        assert(!completes_settle(pts, i, j, settle_ns)) by {
                            if completes_settle(pts, i, j, settle_ns) {
                                let s2 = choose|s2: int|
                                    #![trigger pts[s2]]
                                    i < s2 < j && opens_settle_run(pts, i, s2) && settled_through(pts, s2, j)
                                        && sat_sub(pts[j].timestamp_ns as int, pts[s2].timestamp_ns as int)
                                        >= settle_ns;
                                lemma_settle_run_unique(pts, i, s, s2, j);
                            }
                        }
                        lemma_scan_end_settles(pts, i, j + 1, Some(s0), settle_ns);
                    }
                },
            }
        } else {
            assert(!completes_settle(pts, i, j, settle_ns)) by {
                if completes_settle(pts, i, j, settle_ns) {
                    let s = choose|s: int|
                        #![trigger pts[s]]
                        i < s < j && opens_settle_run(pts, i, s) && settled_through(pts, s, j)
                            && sat_sub(pts[j].timestamp_ns as int, pts[s].timestamp_ns as int) >= settle_ns;
                    assert(pts[j].settled);
                }
            }
            lemma_scan_end_settles(pts, i, j + 1, None, settle_ns);
        }
    }
}

/// Where a movement that began with the onset at `i` ends: it ends settled
/// at `e` exactly when `e` is the first sample after the onset that
/// completes a settle, i.e. the samples from the start of its settled run
/// through `e` are all settled and span at least `settle_ns`, a moving
/// sample in between restarting the count. When no sample completes a
/// settle the movement runs to the last sample and is marked unsettled.
pub proof fn law_movement_end_is_first_completed_settle(pts: Seq<MotionPoint>, i: int, settle_ns: u64)
    requires
        0 <= i < pts.len(),
    ensures
        ({
            let (e, no_settle) = scan_end(pts, i + 1, i, None, settle_ns);
            &&& i <= e < pts.len()
            &&& !no_settle ==> i < e && completes_settle(pts, i, e, settle_ns)
            &&& forall|k: int| i < k < e ==> !completes_settle(pts, i, k, settle_ns)
            &&& no_settle ==> e == pts.len() - 1 && forall|k: int|
                i < k < pts.len() ==> !completes_settle(pts, i, k, settle_ns)
        }),
{
    lemma_scan_end_settles(pts, i, i + 1, None, settle_ns);
}

pub open spec fn no_settle_flags(no_settle: bool) -> Seq<QualityFlag> {
    if no_settle {
        seq![QualityFlag::NoSettle]
    } else {
        Seq::empty()
    }
}

/// The movements found scanning from index `i`, numbered from `id`: a
/// movement starts at a sample whose speed reaches the onset threshold, ends
/// as `scan_end` says, and is kept only if it lasts at least
/// `min_movement_ns`; scanning resumes after its end.
pub open spec fn candidates_from(pts: Seq<MotionPoint>, i: int, id: nat, cfg: SegmentConfig) -> Seq<CandidateView>
    decreases pts.len() - i,
{
    if i >= pts.len() || i < 0 {
        Seq::empty()
    } else if !pts[i].onset {
        candidates_from(pts, i + 1, id, cfg)
    } else {
        let (e, no_settle) = scan_end(pts, i + 1, i, None, cfg.settle_ns);
        let next = if i < e < pts.len() { e + 1 } else { i + 1 };
        if 0 <= e < pts.len() && sat_sub(pts[e].timestamp_ns as int, pts[i].timestamp_ns as int) >= cfg.min_movement_ns {
            seq![CandidateView {
                id: #[verifier::truncate] (id as u32),
                start_ns: pts[i].timestamp_ns,
                end_ns: pts[e].timestamp_ns,
                flags: no_settle_flags(no_settle),
            }] + candidates_from(pts, next, id + 1, cfg)
        } else {
            candidates_from(pts, next, id, cfg)
        }
    }
}

fn scan_movement_end(pts: &[MotionPoint], i: usize, settle_ns: u64) -> (r: (usize, bool))
    requires
        i < pts@.len(),
    ensures
        r.0 as int == scan_end(pts@, i + 1, i as int, None, settle_ns).0,
        r.1 == scan_end(pts@, i + 1, i as int, None, settle_ns).1,
        i <= r.0 < pts@.len(),
        !r.1 ==> i < r.0 && completes_settle(pts@, i as int, r.0 as int, settle_ns),
        forall|k: int| i < k < r.0 ==> !completes_settle(pts@, i as int, k, settle_ns),
        r.1 ==> r.0 == pts@.len() - 1,
{
    proof {
        lemma_scan_end_bounds(pts@, i + 1, i as int, None, settle_ns);
        law_movement_end_is_first_completed_settle(pts@, i as int, settle_ns);
    }
    let n = pts.len();
    let mut settle_start: Option<u64> = None;
    let mut end_i = i;
    let mut j = i + 1;
    while j < pts.len()
        invariant
            i < j <= pts@.len(),
            end_i < j,
            end_i < pts@.len(),
            scan_end(pts@, j as int, end_i as int, settle_start, settle_ns) == scan_end(pts@, i + 1, i as int, None, settle_ns),
        decreases pts.len() - j,
    {
        end_i = j;
        let p = pts[j];
        if p.settled {
            match settle_start {
                None => {
                    settle_start = Some(p.timestamp_ns);
                },
                Some(s0) => {
                    if p.timestamp_ns.saturating_sub(s0) >= settle_ns {
                        proof {
                            law_movement_end_is_first_completed_settle(pts@, i as int, settle_ns);
                        }
                        return (j, false);
                    }
                },
            }
        } else {
            settle_start = None;
        }
        j = j + 1;
    }
    proof {
        law_movement_end_is_first_completed_settle(pts@, i as int, settle_ns);
    }
    (end_i, true)
}

/// Find the movements of a camera timeline (ids from 0, in time order).
pub fn detect_candidates(pts: &[MotionPoint], cfg: &SegmentConfig) -> (r: Vec<MovementCandidate>)
    requires
        pts@.len() < u32::MAX,
    ensures
        views(r@) == candidates_from(pts@, 0, 0, *cfg),
{
    let mut out: Vec<MovementCandidate> = Vec::new();
    let mut id: u32 = 0;
    let mut i: usize = 0;
    while i < pts.len()
        invariant
            i <= pts@.len(),
            pts@.len() < u32::MAX,
            id <= i,
            views(out@) + candidates_from(pts@, i as int, id as nat, *cfg) == candidates_from(pts@, 0, 0, *cfg),
        decreases pts.len() - i,
    {
        let ghost before = views(out@);
        if !pts[i].onset {
            i = i + 1;
            continue;
        }
        let (e, no_settle) = scan_movement_end(pts, i, cfg.settle_ns);
        let start_ns = pts[i].timestamp_ns;
        let end_ns = pts[e].timestamp_ns;
        let next = if e > i { e + 1 } else { i + 1 };
        if end_ns.saturating_sub(start_ns) >= cfg.min_movement_ns {
            let mut flags: Vec<QualityFlag> = Vec::new();
            if no_settle {
                flags.push(QualityFlag::NoSettle);
            }
            assert(flags@ =~= no_settle_flags(no_settle));
            out.push(MovementCandidate { id, start_ns, end_ns, flags });
            assert(views(out@) =~= before.push(out@.last()@));
            proof {
                let c = out@.last()@;
                let rest = candidates_from(pts@, next as int, id as nat + 1, *cfg);
                assert(candidates_from(pts@, i as int, id as nat, *cfg) == seq![c] + rest);
                assert(before.push(c) + rest =~= before + (seq![c] + rest));
            }
            id = id + 1;
        }
        i = next;
    }
    assert(views(out@) + candidates_from(pts@, i as int, id as nat, *cfg) =~= views(out@));
    out
}

// ------------------------------------------------------------ shot linking

/// A shot reduced to what linking reads.
#[derive(Debug, Clone, Copy, PartialEq, Eq, Structural)]
pub struct ShotTiming {
    pub shot_index: u32,
    pub timestamp_ns: u64,
}

/// Number of `times` within `[start, end]`.
pub open spec fn count_within(times: Seq<u64>, start: u64, end: u64) -> nat
    decreases times.len(),
{
    if times.len() == 0 {
        0
    } else {
        count_within(times.drop_last(), start, end) + if start <= times.last() && times.last()
            <= end {
            1nat
        } else {
            0nat
        }
    }
}

fn count_shots_within(times: &[u64], start: u64, end: u64) -> (n: usize)
    ensures
        n == count_within(times@, start, end),
{
    let mut n: usize = 0;
    let mut k: usize = 0;
    while k < times.len()
        invariant
            k <= times@.len(),
            n == count_within(times@.take(k as int), start, end),
            n <= k,
        decreases times.len() - k,
    {
        assert(times@.take(k + 1).drop_last() =~= times@.take(k as int));
        if start <= times[k] && times[k] <= end {
            n = n + 1;
        }
        k = k + 1;
    }
    assert(times@.take(times@.len() as int) =~= times@);
    n
}

/// The candidate flagged as holding more than one shot, when it does.
pub open spec fn with_multi_shot_flag(c: CandidateView, times: Seq<u64>) -> CandidateView {
    if count_within(times, c.start_ns, c.end_ns) > 1 {
        CandidateView { flags: c.flags.push(QualityFlag::MultiShotMovement), ..c }
    } else {
        c
    }
}

fn copy_flags(flags: &Vec<QualityFlag>) -> (r: Vec<QualityFlag>)
    ensures
        r@ == flags@,
{
    let mut r: Vec<QualityFlag> = Vec::new();
    let mut k: usize = 0;
    while k < flags.len()
        invariant
            k <= flags@.len(),
            r@ == flags@.take(k as int),
        decreases flags.len() - k,
    {
        r.push(flags[k]);
        assert(flags@.take(k + 1) =~= flags@.take(k as int).push(flags@[k as int]));
        k = k + 1;
    }
    assert(flags@.take(flags@.len() as int) =~= flags@);
    r
}

/// Flag every movement that contains more than one shot time.
pub fn flag_multi_shot(candidates: &Vec<MovementCandidate>, shot_times: &[u64]) -> (r: Vec<MovementCandidate>)
    ensures
        r@.len() == candidates@.len(),
        forall|k: int|
            0 <= k < r@.len() ==> #[trigger] r@[k]@ == with_multi_shot_flag(candidates@[k]@, shot_times@),
{
    let mut out: Vec<MovementCandidate> = Vec::new();
    let mut k: usize = 0;
    while k < candidates.len()
        invariant
            k <= candidates@.len(),
            out@.len() == k,
            forall|m: int|
                0 <= m < k ==> #[trigger] out@[m]@ == with_multi_shot_flag(candidates@[m]@, shot_times@),
        decreases candidates.len() - k,
    {
        let c = &candidates[k];
        let mut flags = copy_flags(&c.flags);
        if count_shots_within(shot_times, c.start_ns, c.end_ns) > 1 {
            flags.push(QualityFlag::MultiShotMovement);
        }
        out.push(MovementCandidate { id: c.id, start_ns: c.start_ns, end_ns: c.end_ns, flags });
        k = k + 1;
    }
    out
}

pub open spec fn contains_click(c: CandidateView, click_ns: u64) -> bool {
    c.start_ns <= click_ns && click_ns <= c.end_ns
}

/// The movement ended at or before the click, at most `attach_ns` earlier.
pub open spec fn precedes_click(c: CandidateView, click_ns: u64, attach_ns: u64) -> bool {
    c.end_ns <= click_ns && click_ns - c.end_ns <= attach_ns
}

pub open spec fn count_containing(cs: Seq<CandidateView>, click_ns: u64) -> nat
    decreases cs.len(),
{
    if cs.len() == 0 {
        0
    } else {
        count_containing(cs.drop_last(), click_ns) + if contains_click(cs.last(), click_ns) {
            1nat
        } else {
            0nat
        }
    }
}

/// Number of preceding movements whose gap to the click is exactly `gap`.
pub open spec fn count_preceding_gap(cs: Seq<CandidateView>, click_ns: u64, attach_ns: u64, gap: int) -> nat
    decreases cs.len(),
{
    if cs.len() == 0 {
        0
    } else {
        count_preceding_gap(cs.drop_last(), click_ns, attach_ns, gap) + if precedes_click(
            cs.last(),
            click_ns,
            attach_ns,
        ) && click_ns - cs.last().end_ns == gap {
            1nat
        } else {
            0nat
        }
    }
}

/// Whether some preceding movement lies closer to the click than `gap`.
pub open spec fn some_closer(cs: Seq<CandidateView>, click_ns: u64, attach_ns: u64, gap: int) -> bool {
    exists|i: int|
        0 <= i < cs.len() && precedes_click(cs[i], click_ns, attach_ns) && click_ns - cs[i].end_ns
            < gap
}

pub open spec fn some_preceding(cs: Seq<CandidateView>, click_ns: u64, attach_ns: u64) -> bool {
    exists|i: int| 0 <= i < cs.len() && precedes_click(cs[i], click_ns, attach_ns)
}

/// Which movement a click belongs to. A click inside exactly one movement
/// belongs to it; inside several, it is ambiguous. A click inside none
/// belongs to the nearest movement that ended at most `attach_ns` before it,
/// ambiguous when two are equally near, and an orphan when there is none.
pub open spec fn attach_spec(cs: Seq<CandidateView>, click_ns: u64, attach_ns: u64, r: (Option<u32>, Seq<QualityFlag>)) -> bool {
    let nc = count_containing(cs, click_ns);
    if nc == 1 {
        r.1 == Seq::<QualityFlag>::empty() && exists|i: int|
            0 <= i < cs.len() && contains_click(cs[i], click_ns) && r.0 == Some(cs[i].id)
    } else if nc > 1 {
        r.0 is None && r.1 == seq![QualityFlag::AmbiguousShot]
    } else if !some_preceding(cs, click_ns, attach_ns) {
        r.0 is None && r.1 == seq![QualityFlag::OrphanShot]
    } else {
        exists|i: int|
            #![trigger cs[i]]
            0 <= i < cs.len() && precedes_click(cs[i], click_ns, attach_ns) && !some_closer(
                cs,
                click_ns,
                attach_ns,
                click_ns - cs[i].end_ns,
            ) && if count_preceding_gap(cs, click_ns, attach_ns, click_ns - cs[i].end_ns) >= 2 {
                r.0 is None && r.1 == seq![QualityFlag::AmbiguousShot]
            } else {
                r.0 == Some(cs[i].id) && r.1 == Seq::<QualityFlag>::empty()
            }
    }
}

proof fn lemma_count_containing_zero(cs: Seq<CandidateView>, click_ns: u64)
    requires
        forall|i: int| 0 <= i < cs.len() ==> !contains_click(#[trigger] cs[i], click_ns),
    ensures
        count_containing(cs, click_ns) == 0,
    decreases cs.len(),
{
    if cs.len() > 0 {
        lemma_count_containing_zero(cs.drop_last(), click_ns);
    }
}

proof fn lemma_count_containing_one(cs: Seq<CandidateView>, click_ns: u64, i: int)
    requires
        0 <= i < cs.len(),
        contains_click(cs[i], click_ns),
        forall|j: int| 0 <= j < cs.len() && j != i ==> !contains_click(#[trigger] cs[j], click_ns),
    ensures
        count_containing(cs, click_ns) == 1,
    decreases cs.len(),
{
    if i == cs.len() - 1 {
        lemma_count_containing_zero(cs.drop_last(), click_ns);
    } else {
        lemma_count_containing_one(cs.drop_last(), click_ns, i);
    }
}

proof fn lemma_count_containing_two(cs: Seq<CandidateView>, click_ns: u64, i: int, j: int)
    requires
        0 <= i < j < cs.len(),
        contains_click(cs[i], click_ns),
        contains_click(cs[j], click_ns),
    ensures
        count_containing(cs, click_ns) >= 2,
    decreases cs.len(),
{
    if j < cs.len() - 1 {
        lemma_count_containing_two(cs.drop_last(), click_ns, i, j);
    } else {
        lemma_count_containing_pos(cs.drop_last(), click_ns, i);
    }
}

proof fn lemma_count_containing_pos(cs: Seq<CandidateView>, click_ns: u64, i: int)
    requires
        0 <= i < cs.len(),
        contains_click(cs[i], click_ns),
    ensures
        count_containing(cs, click_ns) >= 1,
    decreases cs.len(),
{
    if i < cs.len() - 1 {
        lemma_count_containing_pos(cs.drop_last(), click_ns, i);
    }
}

proof fn lemma_count_gap_zero(cs: Seq<CandidateView>, click_ns: u64, attach_ns: u64, gap: int)
    requires
        forall|i: int|
            0 <= i < cs.len() ==> !(precedes_click(#[trigger] cs[i], click_ns, attach_ns) && click_ns
                - cs[i].end_ns == gap),
    ensures
        count_preceding_gap(cs, click_ns, attach_ns, gap) == 0,
    decreases cs.len(),
{
    if cs.len() > 0 {
        lemma_count_gap_zero(cs.drop_last(), click_ns, attach_ns, gap);
    }
}

proof fn lemma_count_gap_one(cs: Seq<CandidateView>, click_ns: u64, attach_ns: u64, gap: int, i: int)
    requires
        0 <= i < cs.len(),
        precedes_click(cs[i], click_ns, attach_ns),
        click_ns - cs[i].end_ns == gap,
        forall|j: int|
            0 <= j < cs.len() && j != i ==> !(precedes_click(#[trigger] cs[j], click_ns, attach_ns)
                && click_ns - cs[j].end_ns == gap),
    ensures
        count_preceding_gap(cs, click_ns, attach_ns, gap) == 1,
    decreases cs.len(),
{
    if i == cs.len() - 1 {
        lemma_count_gap_zero(cs.drop_last(), click_ns, attach_ns, gap);
    } else {
        lemma_count_gap_one(cs.drop_last(), click_ns, attach_ns, gap, i);
    }
}

proof fn lemma_count_gap_pos(cs: Seq<CandidateView>, click_ns: u64, attach_ns: u64, gap: int, i: int)
    requires
        0 <= i < cs.len(),
        precedes_click(cs[i], click_ns, attach_ns),
        click_ns - cs[i].end_ns == gap,
    ensures
        count_preceding_gap(cs, click_ns, attach_ns, gap) >= 1,
    decreases cs.len(),
{
    if i < cs.len() - 1 {
        lemma_count_gap_pos(cs.drop_last(), click_ns, attach_ns, gap, i);
    }
}

proof fn lemma_count_gap_two(cs: Seq<CandidateView>, click_ns: u64, attach_ns: u64, gap: int, i: int, j: int)
    requires
        0 <= i < j < cs.len(),
        precedes_click(cs[i], click_ns, attach_ns),
        click_ns - cs[i].end_ns == gap,
        precedes_click(cs[j], click_ns, attach_ns),
        click_ns - cs[j].end_ns == gap,
    ensures
        count_preceding_gap(cs, click_ns, attach_ns, gap) >= 2,
    decreases cs.len(),
{
    if j < cs.len() - 1 {
        lemma_count_gap_two(cs.drop_last(), click_ns, attach_ns, gap, i, j);
    } else {
        lemma_count_gap_pos(cs.drop_last(), click_ns, attach_ns, gap, i);
    }
}

/// Link one click to a movement, as `attach_spec` says.
pub fn attach_shot(candidates: &[MovementCandidate], click_ns: u64, attach_ns: u64) -> (r: (Option<u32>, Vec<QualityFlag>))
    ensures
        attach_spec(views(candidates@), click_ns, attach_ns, (r.0, r.1@)),
{
    let ghost cs = views(candidates@);
    // Movements that contain the click.
    let mut first: Option<usize> = None;
    let mut second = false;
    let mut k: usize = 0;
    while k < candidates.len()
        invariant
            cs == views(candidates@),
            k <= candidates@.len(),
            match first {
                None => forall|j: int| 0 <= j < k ==> !contains_click(#[trigger] cs[j], click_ns),
                Some(f) => f < k && contains_click(cs[f as int], click_ns) && (forall|j: int|
                    0 <= j < f ==> !contains_click(#[trigger] cs[j], click_ns)) && (second
                    <==> exists|j: int| f < j < k && contains_click(#[trigger] cs[j], click_ns)),
            },
            first is None ==> !second,
        decreases candidates.len() - k,
    {
        let c = &candidates[k];
        assert(cs[k as int] == c@);
        if c.start_ns <= click_ns && click_ns <= c.end_ns {
            match first {
                None => {
                    first = Some(k);
                },
                Some(_) => {
                    second = true;
                },
            }
        }
        k = k + 1;
    }
    match first {
        Some(f) => {
            if second {
                proof {
                    let j = choose|j: int| f < j < candidates@.len() && contains_click(#[trigger] cs[j], click_ns);
                    lemma_count_containing_two(cs, click_ns, f as int, j);
                }
                let mut flags = Vec::new();
                flags.push(QualityFlag::AmbiguousShot);
                assert(flags@ =~= seq![QualityFlag::AmbiguousShot]);
                return (None, flags);
            } else {
                proof {
                    lemma_count_containing_one(cs, click_ns, f as int);
                }
                let flags = Vec::new();
                assert(flags@ =~= Seq::<QualityFlag>::empty());
                return (Some(candidates[f].id), flags);
            }
        },
        None => {
            proof {
                lemma_count_containing_zero(cs, click_ns);
            }
        },
    }
    // No movement contains the click: nearest preceding one, ties ambiguous.
    let mut best: Option<usize> = None;
    let mut best_gap: u64 = 0;
    let mut tie = false;
    let mut k: usize = 0;
    while k < candidates.len()
        invariant
            cs == views(candidates@),
            k <= candidates@.len(),
            count_containing(cs, click_ns) == 0,
            match best {
                None => forall|j: int| 0 <= j < k ==> !precedes_click(#[trigger] cs[j], click_ns, attach_ns),
                Some(b) => b < k && precedes_click(cs[b as int], click_ns, attach_ns) && best_gap
                    == click_ns - cs[b as int].end_ns && (forall|j: int|
                    0 <= j < k && precedes_click(#[trigger] cs[j], click_ns, attach_ns) ==> click_ns
                        - cs[j].end_ns >= best_gap) && (forall|j: int|
                    0 <= j < b && precedes_click(#[trigger] cs[j], click_ns, attach_ns) ==> click_ns
                        - cs[j].end_ns > best_gap) && (tie <==> exists|j: int|
                    b < j < k && precedes_click(#[trigger] cs[j], click_ns, attach_ns) && click_ns
                        - cs[j].end_ns == best_gap),
            },
            best is None ==> !tie,
        decreases candidates.len() - k,
    {
        let c = &candidates[k];
        assert(cs[k as int] == c@);
        if c.end_ns <= click_ns && click_ns - c.end_ns <= attach_ns {
            let gap = click_ns - c.end_ns;
            match best {
                None => {
                    best = Some(k);
                    best_gap = gap;
                    tie = false;
                },
                Some(_) => {
                    if gap < best_gap {
                        best = Some(k);
                        best_gap = gap;
                        tie = false;
                    } else if gap == best_gap {
                        tie = true;
                    }
                },
            }
        }
        k = k + 1;
    }
    match best {
        None => {
            let mut flags = Vec::new();
            flags.push(QualityFlag::OrphanShot);
            assert(flags@ =~= seq![QualityFlag::OrphanShot]);
            (None, flags)
        },
        Some(b) => {
            let ghost gap = click_ns - cs[b as int].end_ns;
            assert(!some_closer(cs, click_ns, attach_ns, gap));
            assert(some_preceding(cs, click_ns, attach_ns));
            if tie {
                proof {
                    let j = choose|j: int|
                        b < j < candidates@.len() && precedes_click(#[trigger] cs[j], click_ns, attach_ns)
                            && click_ns - cs[j].end_ns == best_gap;
                    lemma_count_gap_two(cs, click_ns, attach_ns, gap, b as int, j);
                }
                let mut flags = Vec::new();
                flags.push(QualityFlag::AmbiguousShot);
                assert(flags@ =~= seq![QualityFlag::AmbiguousShot]);
                (None, flags)
            } else {
                proof {
                    lemma_count_gap_one(cs, click_ns, attach_ns, gap, b as int);
                }
                let flags = Vec::new();
                assert(flags@ =~= Seq::<QualityFlag>::empty());
                (Some(candidates[b].id), flags)
            }
        },
    }
}

// ---------------------------------------------------------- correction window

/// Earliest start of a movement that begins after the click.
pub open spec fn next_onset_after(cs: Seq<CandidateView>, click_ns: u64) -> Option<u64>
    decreases cs.len(),
{
    if cs.len() == 0 {
        None
    } else {
        let r = next_onset_after(cs.drop_last(), click_ns);
        let c = cs.last();
        if c.start_ns > click_ns {
            match r {
                None => Some(c.start_ns),
                Some(m) => Some(if m <= c.start_ns { m } else { c.start_ns }),
            }
        } else {
            r
        }
    }
}

/// Scanning the samples after the click (in timeline order, stopping at
/// `max_end` or at the next movement's onset), the first sample at which the
/// speed has stayed below the settle threshold for `settle_ns`.
pub open spec fn settle_after(
    pts: Seq<MotionPoint>,
    k: int,
    click_ns: u64,
    max_end: u64,
    next_onset: Option<u64>,
    settle_start: Option<u64>,
    settle_ns: u64,
) -> Option<u64>
    decreases pts.len() - k,
{
    if k >= pts.len() || k < 0 {
        None
    } else {
        let t = pts[k].timestamp_ns;
        if t <= click_ns {
            settle_after(pts, k + 1, click_ns, max_end, next_onset, settle_start, settle_ns)
        } else if t > max_end {
            None
        } else if next_onset is Some && t >= next_onset->0 {
            None
        } else if pts[k].settled {
            match settle_start {
                None => settle_after(pts, k + 1, click_ns, max_end, next_onset, Some(t), settle_ns),
                Some(s0) => if sat_sub(t as int, s0 as int) >= settle_ns {
                    Some(t)
                } else {
                    settle_after(pts, k + 1, click_ns, max_end, next_onset, Some(s0), settle_ns)
                },
            }
        } else {
            settle_after(pts, k + 1, click_ns, max_end, next_onset, None, settle_ns)
        }
    }
}

pub open spec fn min_opt(a: u64, b: Option<u64>) -> u64 {
    match b {
        Some(x) => if x < a { x } else { a },
        None => a,
    }
}

/// The post-click correction window: from the click to the earliest of the
/// settle point, the next movement's onset and `post_click_max_ns` after the
/// click; empty when that end is not after the click.
pub open spec fn correction_spec(pts: Seq<MotionPoint>, cs: Seq<CandidateView>, click_ns: u64, cfg: SegmentConfig) -> (Option<u64>, Option<u64>) {
    let max_end = sat_add_u64(click_ns as int, cfg.post_click_max_ns as int) as u64;
    let no = next_onset_after(cs, click_ns);
    let settle = settle_after(pts, 0, click_ns, max_end, no, None, cfg.settle_ns);
    let end = min_opt(min_opt(max_end, no), settle);
    if end <= click_ns {
        (None, None)
    } else {
        (Some(click_ns), Some(end))
    }
}

proof fn lemma_next_onset_after(cs: Seq<CandidateView>, click_ns: u64)
    ensures
        next_onset_after(cs, click_ns) matches Some(m) ==> m > click_ns && (exists|j: int|
            0 <= j < cs.len() && #[trigger] cs[j].start_ns == m),
        next_onset_after(cs, click_ns) matches Some(m) ==> forall|j: int|
            0 <= j < cs.len() && #[trigger] cs[j].start_ns > click_ns ==> m <= cs[j].start_ns,
        next_onset_after(cs, click_ns) is None ==> forall|j: int|
            0 <= j < cs.len() ==> #[trigger] cs[j].start_ns <= click_ns,
    decreases cs.len(),
{
    if cs.len() > 0 {
        let init = cs.drop_last();
        lemma_next_onset_after(init, click_ns);
        assert forall|j: int| 0 <= j < init.len() implies #[trigger] init[j] == cs[j] by {}
        if let Some(m) = next_onset_after(init, click_ns) {
            let j = choose|j: int| 0 <= j < init.len() && #[trigger] init[j].start_ns == m;
            assert(cs[j].start_ns == m);
        }
        let r = next_onset_after(cs, click_ns);
        assert forall|j: int| 0 <= j < cs.len() && #[trigger] cs[j].start_ns > click_ns implies (r matches Some(
            m,
        ) && m <= cs[j].start_ns) by {
            if j < init.len() {
                assert(init[j].start_ns == cs[j].start_ns);
            }
        }
        assert forall|j: int| 0 <= j < cs.len() && r is None implies #[trigger] cs[j].start_ns <= click_ns by {
            if j < init.len() {
                assert(init[j].start_ns == cs[j].start_ns);
            }
        }
    }
}

proof fn lemma_settle_after(
    pts: Seq<MotionPoint>,
    k: int,
    click_ns: u64,
    max_end: u64,
    next_onset: Option<u64>,
    settle_start: Option<u64>,
    settle_ns: u64,
)
    ensures
        settle_after(pts, k, click_ns, max_end, next_onset, settle_start, settle_ns) matches Some(t) ==> {
            &&& click_ns < t <= max_end
            &&& next_onset matches Some(n) ==> t < n
            &&& exists|q: int| 0 <= q < pts.len() && #[trigger] pts[q].timestamp_ns == t && pts[q].settled
        },
    decreases pts.len() - k,
{
    if 0 <= k < pts.len() {
        lemma_settle_after(pts, k + 1, click_ns, max_end, next_onset, settle_start, settle_ns);
        if pts[k].settled {
            lemma_settle_after(pts, k + 1, click_ns, max_end, next_onset, Some(pts[k].timestamp_ns), settle_ns);
        }
        lemma_settle_after(pts, k + 1, click_ns, max_end, next_onset, None, settle_ns);
    }
}

/// The correction window after a click starts at the click and ends after
/// it, at the earliest of: `post_click_max_ns` after the click, the start of
/// any movement that begins after the click, and the time the view settled.
/// So it never reaches into the next movement, never outlasts the cap, and
/// when it ends before both it ends at a settled sample. There is no window
/// only when the cap leaves no time after the click.
pub proof fn law_correction_window_bounds(
    pts: Seq<MotionPoint>,
    cs: Seq<CandidateView>,
    click_ns: u64,
    cfg: SegmentConfig,
)
    ensures
        ({
            let (start, end) = correction_spec(pts, cs, click_ns, cfg);
            let cap = sat_add_u64(click_ns as int, cfg.post_click_max_ns as int);
            &&& start is Some <==> end is Some
            &&& start is Some ==> start == Some(click_ns)
            &&& end matches Some(e) ==> {
                &&& click_ns < e
                &&& e <= cap
                &&& forall|j: int| 0 <= j < cs.len() && #[trigger] cs[j].start_ns > click_ns ==> e <= cs[j].start_ns
                &&& (e == cap || (exists|j: int| 0 <= j < cs.len() && #[trigger] cs[j].start_ns == e && e > click_ns)
                    || exists|q: int| 0 <= q < pts.len() && #[trigger] pts[q].timestamp_ns == e && pts[q].settled)
            }
            &&& end is None <==> cap <= click_ns
        }),
{
    let max_end = sat_add_u64(click_ns as int, cfg.post_click_max_ns as int) as u64;
    let no = next_onset_after(cs, click_ns);
    lemma_next_onset_after(cs, click_ns);
    lemma_settle_after(pts, 0, click_ns, max_end, no, None, cfg.settle_ns);
}

fn next_onset(candidates: &[MovementCandidate], click_ns: u64) -> (r: Option<u64>)
    ensures
        r == next_onset_after(views(candidates@), click_ns),
{
    let ghost cs = views(candidates@);
    let mut best: Option<u64> = None;
    let mut k: usize = 0;
    while k < candidates.len()
        invariant
            cs == views(candidates@),
            k <= candidates@.len(),
            best == next_onset_after(cs.take(k as int), click_ns),
        decreases candidates.len() - k,
    {
        assert(cs.take(k + 1).drop_last() =~= cs.take(k as int));
        assert(cs.take(k + 1).last() == candidates@[k as int]@);
        let st = candidates[k].start_ns;
        if st > click_ns {
            best = match best {
                None => Some(st),
                Some(m) => Some(if m <= st { m } else { st }),
            };
        }
        k = k + 1;
    }
    assert(cs.take(candidates@.len() as int) =~= cs);
    best
}

/// The correction window after the click at `click_ns`, as `correction_spec` says.
pub fn correction_window(
    pts: &[MotionPoint],
    candidates: &[MovementCandidate],
    click_ns: u64,
    cfg: &SegmentConfig,
) -> (r: (Option<u64>, Option<u64>))
    ensures
        r == correction_spec(pts@, views(candidates@), click_ns, *cfg),
        r.0 is Some <==> r.1 is Some,
        r.1 matches Some(e) ==> {
            &&& r.0 == Some(click_ns)
            &&& click_ns < e <= sat_add_u64(click_ns as int, cfg.post_click_max_ns as int)
            &&& forall|j: int|
                0 <= j < candidates@.len() && #[trigger] candidates@[j].start_ns > click_ns ==> e
                    <= candidates@[j].start_ns
        },
{
    proof {
        let cs = views(candidates@);
        law_correction_window_bounds(pts@, cs, click_ns, *cfg);
        assert forall|j: int| 0 <= j < candidates@.len() implies #[trigger] candidates@[j].start_ns == cs[j].start_ns by {}
    }
    let max_end = click_ns.saturating_add(cfg.post_click_max_ns);
    let no = next_onset(candidates, click_ns);
    let settle_ns = cfg.settle_ns;
    let mut settle_start: Option<u64> = None;
    let mut settle_end: Option<u64> = None;
    let mut k: usize = 0;
    while k < pts.len()
        invariant_except_break
            settle_end is None,
        invariant
            k <= pts@.len(),
            settle_after(pts@, k as int, click_ns, max_end, no, settle_start, settle_ns) == settle_after(
                pts@,
                0,
                click_ns,
                max_end,
                no,
                None,
                settle_ns,
            ),
        ensures
            settle_end == settle_after(pts@, 0, click_ns, max_end, no, None, settle_ns),
        decreases pts.len() - k,
    {
        let p = pts[k];
        let t = p.timestamp_ns;
        if t <= click_ns {
            k = k + 1;
            continue;
        }
        if t > max_end {
            break;
        }
        match no {
            Some(n) => {
                if t >= n {
                    break;
                }
            },
            None => {},
        }
        if p.settled {
            match settle_start {
                None => {
                    settle_start = Some(t);
                },
                Some(s0) => {
                    if t.saturating_sub(s0) >= settle_ns {
                        settle_end = Some(t);
                        break;
                    }
                },
            }
        } else {
            settle_start = None;
        }
        k = k + 1;
    }
    let mut end = max_end;
    match no {
        Some(n) => {
            if n < end {
                end = n;
            }
        },
        None => {},
    }
    match settle_end {
        Some(se) => {
            if se < end {
                end = se;
            }
        },
        None => {},
    }
    if end <= click_ns {
        (None, None)
    } else {
        (Some(click_ns), Some(end))
    }
}

// ------------------------------------------------------------- segmentation

/// How one shot links to the movements.
#[derive(Debug, Clone, PartialEq)]
pub struct ShotLink {
    pub shot_index: u32,
    pub primary_movement_id: Option<u32>,
    pub correction_start_ns: Option<u64>,
    pub correction_end_ns: Option<u64>,
    pub flags: Vec<QualityFlag>,
}

/// A shot left without a movement is flagged an orphan (once).
pub open spec fn orphan_extend(flags: Seq<QualityFlag>, primary: Option<u32>) -> Seq<QualityFlag> {
    if primary is None && !flags.contains(QualityFlag::OrphanShot) {
        flags.push(QualityFlag::OrphanShot)
    } else {
        flags
    }
}

/// What the link of `shot` is, given the (flagged) movements `cs`: the
/// attachment of `attach_spec`, an orphan flag when no movement was chosen,
/// and the correction window only for an attached shot.
pub open spec fn link_spec(pts: Seq<MotionPoint>, cs: Seq<CandidateView>, shot: ShotTiming, cfg: SegmentConfig, l: ShotLink) -> bool {
    &&& l.shot_index == shot.shot_index
    &&& exists|base: Seq<QualityFlag>|
        attach_spec(cs, shot.timestamp_ns, cfg.shot_attach_ns, (l.primary_movement_id, base))
            && l.flags@ == orphan_extend(base, l.primary_movement_id)
    &&& (l.correction_start_ns, l.correction_end_ns) == if l.primary_movement_id is Some {
        correction_spec(pts, cs, shot.timestamp_ns, cfg)
    } else {
        (None, None)
    }
}

fn has_flag(flags: &Vec<QualityFlag>, f: QualityFlag) -> (b: bool)
    ensures
        b == flags@.contains(f),
{
    let mut k: usize = 0;
    while k < flags.len()
        invariant
            k <= flags@.len(),
            forall|m: int| 0 <= m < k ==> flags@[m] != f,
        decreases flags.len() - k,
    {
        if flags[k] == f {
            assert(flags@[k as int] == f);
            return true;
        }
        k = k + 1;
    }
    false
}

/// Split a camera timeline into movements and link every shot to at most
/// one of them: movements as `candidates_from` finds them, flagged when
/// they hold several shots; each link as `link_spec` says.
pub fn segment(pts: &[MotionPoint], shots: &[ShotTiming], cfg: &SegmentConfig) -> (r: (Vec<MovementCandidate>, Vec<ShotLink>))
    requires
        pts@.len() < u32::MAX,
    ensures
        r.0@.len() == candidates_from(pts@, 0, 0, *cfg).len(),
        forall|k: int|
            0 <= k < r.0@.len() ==> #[trigger] r.0@[k]@ == with_multi_shot_flag(
                candidates_from(pts@, 0, 0, *cfg)[k],
                shots@.map_values(|s: ShotTiming| s.timestamp_ns),
            ),
        r.1@.len() == shots@.len(),
        forall|k: int|
            0 <= k < r.1@.len() ==> link_spec(pts@, views(r.0@), shots@[k], *cfg, #[trigger] r.1@[k]),
{
    let mut times: Vec<u64> = Vec::new();
    let mut k: usize = 0;
    while k < shots.len()
        invariant
            k <= shots@.len(),
            times@ == shots@.take(k as int).map_values(|s: ShotTiming| s.timestamp_ns),
        decreases shots.len() - k,
    {
        times.push(shots[k].timestamp_ns);
        assert(shots@.take(k + 1).map_values(|s: ShotTiming| s.timestamp_ns) =~= shots@.take(
            k as int,
        ).map_values(|s: ShotTiming| s.timestamp_ns).push(shots@[k as int].timestamp_ns));
        k = k + 1;
    }
    assert(shots@.take(shots@.len() as int) =~= shots@);
    let detected = detect_candidates(pts, cfg);
    let candidates = flag_multi_shot(&detected, times.as_slice());
    proof {
        assert forall|k: int| 0 <= k < detected@.len() implies #[trigger] detected@[k]@ == candidates_from(pts@, 0, 0, *cfg)[k] by {
            assert(views(detected@)[k] == detected@[k]@);
        }
    }
    let mut links: Vec<ShotLink> = Vec::new();
    let mut k: usize = 0;
    while k < shots.len()
        invariant
            k <= shots@.len(),
            links@.len() == k,
            forall|m: int|
                0 <= m < k ==> link_spec(pts@, views(candidates@), shots@[m], *cfg, #[trigger] links@[m]),
        decreases shots.len() - k,
    {
        let shot = shots[k];
        let (primary, mut flags) = attach_shot(candidates.as_slice(), shot.timestamp_ns, cfg.shot_attach_ns);
        let ghost base = flags@;
        let (c_start, c_end) = match primary {
            Some(_) => correction_window(pts, candidates.as_slice(), shot.timestamp_ns, cfg),
            None => (None, None),
        };
        if primary.is_none() && !has_flag(&flags, QualityFlag::OrphanShot) {
            flags.push(QualityFlag::OrphanShot);
        }
        let link = ShotLink {
            shot_index: shot.shot_index,
            primary_movement_id: primary,
            correction_start_ns: c_start,
            correction_end_ns: c_end,
            flags,
        };
        proof {
            let cs = views(candidates@);
            assert(attach_spec(cs, shot.timestamp_ns, cfg.shot_attach_ns, (primary, base)));
            assert(link.flags@ == orphan_extend(base, primary));
            assert(shots@[k as int] == shot);
        }
        assert(link_spec(pts@, views(candidates@), shots@[k as int], *cfg, link));
        links.push(link);
        k = k + 1;
    }
    (candidates, links)
}

/// A link names a movement only when that movement contains the click or
/// ended at most the attach window before it; a link that names none carries
/// a flag saying why.
pub proof fn law_link_names_nearby_movement(
    cs: Seq<CandidateView>,
    click_ns: u64,
    attach_ns: u64,
    r: (Option<u32>, Seq<QualityFlag>),
)
    requires
        attach_spec(cs, click_ns, attach_ns, r),
    ensures
        r.0 is Some ==> exists|i: int|
            0 <= i < cs.len() && cs[i].id == r.0->0 && (contains_click(cs[i], click_ns)
                || precedes_click(cs[i], click_ns, attach_ns)),
        r.0 is None ==> r.1.len() == 1,
{
}

// --------------------------------------------------------------- time gaps

/// Some consecutive pair of `ts` is more than `gap_ns` apart.
pub open spec fn has_gap(ts: Seq<u64>, gap_ns: u64) -> bool {
    exists|i: int| 0 <= i < ts.len() - 1 && #[trigger] step_over(ts, i, gap_ns)
}

pub open spec fn step_over(ts: Seq<u64>, i: int, gap_ns: u64) -> bool {
    sat_sub(ts[i + 1] as int, ts[i] as int) > gap_ns
}

fn scan_gap(ts: &[u64], gap_ns: u64) -> (b: bool)
    ensures
        b == has_gap(ts@, gap_ns),
{
    let n = ts.len();
    if n < 2 {
        return false;
    }
    let mut i: usize = 0;
    while i + 1 < n
        invariant
            n == ts@.len(),
            i + 1 <= n,
            forall|j: int| 0 <= j < i && j < ts@.len() - 1 ==> !#[trigger] step_over(ts@, j, gap_ns),
        decreases ts.len() - i,
    {
        if ts[i + 1].saturating_sub(ts[i]) > gap_ns {
            assert(step_over(ts@, i as int, gap_ns));
            return true;
        }
        i = i + 1;
    }
    false
}

/// A trial whose camera or input timeline has a step longer than `gap_ms`
/// is flagged (once) with a timestamp gap.
pub fn scan_timestamp_gaps(camera_ts: &[u64], input_ts: &[u64], gap_ms: u64) -> (r: Vec<QualityFlag>)
    ensures
        r@ == if has_gap(camera_ts@, ms_to_ns(gap_ms)) || has_gap(input_ts@, ms_to_ns(gap_ms)) {
            seq![QualityFlag::TimestampGap]
        } else {
            Seq::<QualityFlag>::empty()
        },
{
    let gap_ns = ms_to_ns_sat(gap_ms);
    let mut flags: Vec<QualityFlag> = Vec::new();
    if scan_gap(camera_ts, gap_ns) || scan_gap(input_ts, gap_ns) {
        flags.push(QualityFlag::TimestampGap);
    }
    assert(flags@ =~= if has_gap(camera_ts@, gap_ns) || has_gap(input_ts@, gap_ns) {
        seq![QualityFlag::TimestampGap]
    } else {
        Seq::<QualityFlag>::empty()
    });
    flags
}

} // verus!
