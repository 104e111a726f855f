use vstd::prelude::*;

use crate::segment::{CandidateView, MovementCandidate, QualityFlag, views};

verus! {

pub const ANALYSIS_VERSION: &'static str = "2";

/// Why a trial could not be analysed.
#[derive(Debug, Clone, PartialEq, Eq)]
pub enum AnalysisError {
    UnsupportedTrialType(String),
    InsufficientTelemetry(String),
    ReconstructionFailed(String),
    Loader(String),
}

impl AnalysisError {
    pub open spec fn message_spec(&self) -> Seq<char> {
        match self {
            AnalysisError::UnsupportedTrialType(t) => "unsupported trial type: "@ + t@,
            AnalysisError::InsufficientTelemetry(m) => "insufficient telemetry: "@ + m@,
            AnalysisError::ReconstructionFailed(m) => "reconstruction failed: "@ + m@,
            AnalysisError::Loader(m) => "loader: "@ + m@,
        }
    }

    /// The human-readable text of the error.
    pub fn message(&self) -> (s: String)
        ensures
            s@ == self.message_spec(),
    {
        match self {
            AnalysisError::UnsupportedTrialType(t) => String::from_str("unsupported trial type: ").concat(
                t.as_str(),
            ),
            AnalysisError::InsufficientTelemetry(m) => String::from_str("insufficient telemetry: ").concat(
                m.as_str(),
            ),
            AnalysisError::ReconstructionFailed(m) => String::from_str("reconstruction failed: ").concat(
                m.as_str(),
            ),
            AnalysisError::Loader(m) => String::from_str("loader: ").concat(m.as_str()),
        }
    }
}

/// The trial types the analysis knows.
pub open spec fn supported_trial_type(t: Seq<char>) -> bool {
    ||| t == "STATIC_CLICK"@
    ||| t == "GRIDSHOT"@
    ||| t == "TRACKING"@
    ||| t == "FLICK_LADDER"@
    ||| t == "ONE_WALL_SIX"@
    ||| t == "FLICK_DEMAND"@
}

pub open spec fn tracking_needs_shots_message() -> Seq<char> {
    "TRACKING analysis requires aim_shots (task_version 2+ rapid-fire)"@
}

/// Whether a trial with `shot_count` shots and `camera_sample_count` camera
/// samples can be analysed: its type must be known, a TRACKING trial needs
/// its rapid-fire shots, and every trial needs camera samples.
pub open spec fn analyzable_spec(
    trial_type: Seq<char>,
    shot_count: nat,
    camera_sample_count: nat,
    r: Result<(), AnalysisError>,
) -> bool {
    if !supported_trial_type(trial_type) {
        r matches Err(AnalysisError::UnsupportedTrialType(t)) && t@ == trial_type
    } else if trial_type == "TRACKING"@ && shot_count == 0 {
        r matches Err(AnalysisError::InsufficientTelemetry(m)) && m@ == tracking_needs_shots_message()
    } else if camera_sample_count == 0 {
        r matches Err(AnalysisError::InsufficientTelemetry(m)) && m@ == "no camera samples"@
    } else {
        r is Ok
    }
}

fn str_eq(a: &str, b: &str) -> (r: bool)
    ensures
        r == (a@ == b@),
{
    String::from_str(a) == String::from_str(b)
}

/// The checks made before a trial is reconstructed, as `analyzable_spec` says.
pub fn check_analyzable(trial_type: &str, shot_count: usize, camera_sample_count: usize) -> (r: Result<(), AnalysisError>)
    ensures
        analyzable_spec(trial_type@, shot_count as nat, camera_sample_count as nat, r),
{
    let known = str_eq(trial_type, "STATIC_CLICK") || str_eq(trial_type, "GRIDSHOT") || str_eq(
        trial_type,
        "TRACKING",
    ) || str_eq(trial_type, "FLICK_LADDER") || str_eq(trial_type, "ONE_WALL_SIX") || str_eq(
        trial_type,
        "FLICK_DEMAND",
    );
    if !known {
        return Err(AnalysisError::UnsupportedTrialType(String::from_str(trial_type)));
    }
    if str_eq(trial_type, "TRACKING") && shot_count == 0 {
        return Err(
            AnalysisError::InsufficientTelemetry(
                String::from_str("TRACKING analysis requires aim_shots (task_version 2+ rapid-fire)"),
            ),
        );
    }
    if camera_sample_count == 0 {
        return Err(AnalysisError::InsufficientTelemetry(String::from_str("no camera samples")));
    }
    Ok(())
}

/// The camera timestamps never go backwards.
pub open spec fn non_decreasing(ts: Seq<u64>) -> bool {
    forall|i: int| 0 < i < ts.len() ==> ts[i - 1] <= #[trigger] ts[i]
}

/// The integer checks of camera reconstruction over the samples'
/// timestamps, in order: there must be a sample, and no timestamp may be
/// earlier than the one before it.
pub fn check_camera_timestamps(timestamps: &[u64]) -> (r: Result<(), AnalysisError>)
    ensures
        timestamps@.len() == 0 ==> (r matches Err(AnalysisError::InsufficientTelemetry(m)) && m@
            == "no camera samples"@),
        timestamps@.len() > 0 && !non_decreasing(timestamps@) ==> (r matches Err(
            AnalysisError::ReconstructionFailed(m),
        ) && m@ == "camera timestamps are not monotonic"@),
        timestamps@.len() > 0 && non_decreasing(timestamps@) ==> r is Ok,
{
    if timestamps.len() == 0 {
        return Err(AnalysisError::InsufficientTelemetry(String::from_str("no camera samples")));
    }
    let mut i: usize = 1;
    while i < timestamps.len()
        invariant
            1 <= i <= timestamps@.len(),
            forall|j: int| 0 < j < i ==> timestamps@[j - 1] <= #[trigger] timestamps@[j],
        decreases timestamps.len() - i,
    {
        if timestamps[i] < timestamps[i - 1] {
            return Err(
                AnalysisError::ReconstructionFailed(String::from_str("camera timestamps are not monotonic")),
            );
        }
        i = i + 1;
    }
    Ok(())
}

// ------------------------------------------------------------ flag sets

/// Every quality flag, in report order.
pub open spec fn all_flags() -> Seq<QualityFlag> {
    seq![
        QualityFlag::OrphanShot,
        QualityFlag::AmbiguousShot,
        QualityFlag::MultiShotMovement,
        QualityFlag::NoSettle,
        QualityFlag::InsufficientTelemetry,
        QualityFlag::TimestampGap,
        QualityFlag::CameraInputMismatch,
        QualityFlag::ReconstructionDiscontinuity,
        QualityFlag::ZeroAcquisitionDuration,
    ]
}

/// Position of a flag in report order.
pub open spec fn flag_rank(f: QualityFlag) -> int {
    match f {
        QualityFlag::OrphanShot => 0,
        QualityFlag::AmbiguousShot => 1,
        QualityFlag::MultiShotMovement => 2,
        QualityFlag::NoSettle => 3,
        QualityFlag::InsufficientTelemetry => 4,
        QualityFlag::TimestampGap => 5,
        QualityFlag::CameraInputMismatch => 6,
        QualityFlag::ReconstructionDiscontinuity => 7,
        QualityFlag::ZeroAcquisitionDuration => 8,
    }
}

/// The elements of `order` that occur in `flags`, in the order of `order`.
pub open spec fn keep_present(order: Seq<QualityFlag>, flags: Seq<QualityFlag>) -> Seq<QualityFlag>
    decreases order.len(),
{
    if order.len() == 0 {
        Seq::empty()
    } else {
        let r = keep_present(order.drop_last(), flags);
        if flags.contains(order.last()) {
            r.push(order.last())
        } else {
            r
        }
    }
}

/// `flags` as a report lists them: each flag once, in report order.
pub open spec fn normalized(flags: Seq<QualityFlag>) -> Seq<QualityFlag> {
    keep_present(all_flags(), flags)
}

fn all_flags_vec() -> (v: Vec<QualityFlag>)
    ensures
        v@ == all_flags(),
{
    let v = vec![
        QualityFlag::OrphanShot,
        QualityFlag::AmbiguousShot,
        QualityFlag::MultiShotMovement,
        QualityFlag::NoSettle,
        QualityFlag::InsufficientTelemetry,
        QualityFlag::TimestampGap,
        QualityFlag::CameraInputMismatch,
        QualityFlag::ReconstructionDiscontinuity,
        QualityFlag::ZeroAcquisitionDuration,
    ];
    assert(v@ =~= all_flags());
    v
}

fn contains_flag(flags: &[QualityFlag], f: QualityFlag) -> (b: bool)
    ensures
        b == flags@.contains(f),
{
    let mut k: usize = 0;
    while k < flags.len()
        invariant
            k <= flags@.len(),
            forall|m: int| 0 <= m < k ==> flags@[m] != f,
        decreases flags.len() - k,
    {
        if flags[k] == f {
            assert(flags@[k as int] == f);
            return true;
        }
        k = k + 1;
    }
    false
}

/// Sort `flags` into report order and drop repeats.
pub fn normalize_flags(flags: &[QualityFlag]) -> (r: Vec<QualityFlag>)
    ensures
        r@ == normalized(flags@),
{
    let order = all_flags_vec();
    let mut out: Vec<QualityFlag> = Vec::new();
    let mut i: usize = 0;
    while i < order.len()
        invariant
            order@ == all_flags(),
            i <= order@.len(),
            out@ == keep_present(order@.take(i as int), flags@),
        decreases order.len() - i,
    {
        assert(order@.take(i + 1).drop_last() =~= order@.take(i as int));
        let f = order[i];
        if contains_flag(flags, f) {
            out.push(f);
        }
        i = i + 1;
    }
    assert(order@.take(order@.len() as int) =~= order@);
    out
}

proof fn lemma_keep_present_members(order: Seq<QualityFlag>, flags: Seq<QualityFlag>, f: QualityFlag)
    ensures
        keep_present(order, flags).contains(f) <==> (order.contains(f) && flags.contains(f)),
    decreases order.len(),
{
    if order.len() > 0 {
        lemma_keep_present_members(order.drop_last(), flags, f);
        let r = keep_present(order.drop_last(), flags);
        if flags.contains(order.last()) {
            let r2 = r.push(order.last());
            if r.contains(f) {
                let j = choose|j: int| 0 <= j < r.len() && r[j] == f;
                assert(r2[j] == f);
            }
            if f == order.last() {
                assert(r2[r.len() as int] == f);
            }
            if r2.contains(f) {
                let j = choose|j: int| 0 <= j < r2.len() && r2[j] == f;
                if j < r.len() {
                    assert(r[j] == f);
                }
            }
        }
        assert(order.contains(f) <==> (order.drop_last().contains(f) || order.last() == f)) by {
            if order.contains(f) {
                let j = choose|j: int| 0 <= j < order.len() && order[j] == f;
                if j < order.len() - 1 {
                    assert(order.drop_last()[j] == f);
                }
            }
            if order.drop_last().contains(f) {
                let j = choose|j: int| 0 <= j < order.len() - 1 && order.drop_last()[j] == f;
                assert(order[j] == f);
            }
            if order.last() == f {
                assert(order[order.len() - 1] == f);
            }
        }
    }
}

proof fn lemma_keep_present_ranks(order: Seq<QualityFlag>, flags: Seq<QualityFlag>)
    requires
        forall|i: int, j: int| 0 <= i < j < order.len() ==> flag_rank(order[i]) < flag_rank(order[j]),
    ensures
        forall|i: int, j: int|
            0 <= i < j < keep_present(order, flags).len() ==> flag_rank(
                #[trigger] keep_present(order, flags)[i],
            ) < flag_rank(#[trigger] keep_present(order, flags)[j]),
        forall|i: int|
            0 <= i < keep_present(order, flags).len() ==> #[trigger] order.contains(
                keep_present(order, flags)[i],
            ),
    decreases order.len(),
{
    if order.len() > 0 {
        let o = order.drop_last();
        lemma_keep_present_ranks(o, flags);
        let r = keep_present(o, flags);
        assert forall|i: int| 0 <= i < r.len() implies flag_rank(#[trigger] r[i]) < flag_rank(order.last()) by {
            assert(o.contains(r[i]));
            let j = choose|j: int| 0 <= j < o.len() && o[j] == r[i];
            assert(order[j] == r[i]);
            assert(order[order.len() - 1] == order.last());
        }
        assert forall|i: int| 0 <= i < r.len() implies #[trigger] order.contains(r[i]) by {
            assert(o.contains(r[i]));
            let j = choose|j: int| 0 <= j < o.len() && o[j] == r[i];
            assert(order[j] == r[i]);
        }
        if flags.contains(order.last()) {
            let r2 = r.push(order.last());
            assert(order[order.len() - 1] == order.last());
            assert forall|i: int| 0 <= i < r2.len() implies #[trigger] order.contains(r2[i]) by {
                if i < r.len() {
                    assert(r2[i] == r[i]);
                }
            }
        }
    }
}

/// A report's flag list holds each flag at most once, in report order, and
/// holds exactly the flags that were raised.
pub proof fn law_normalized_flags(flags: Seq<QualityFlag>)
    ensures
        forall|f: QualityFlag| normalized(flags).contains(f) <==> flags.contains(f),
        forall|i: int, j: int|
            0 <= i < j < normalized(flags).len() ==> flag_rank(#[trigger] normalized(flags)[i])
                < flag_rank(#[trigger] normalized(flags)[j]),
{
    let order = all_flags();
    assert forall|f: QualityFlag| normalized(flags).contains(f) <==> flags.contains(f) by {
        lemma_keep_present_members(order, flags, f);
        let k = flag_rank(f);
        assert(order[k] == f);
    }
    assert forall|i: int, j: int| 0 <= i < j < order.len() implies flag_rank(order[i]) < flag_rank(
        order[j],
    ) by {
        assert(flag_rank(order[i]) == i);
        assert(flag_rank(order[j]) == j);
    }
    lemma_keep_present_ranks(order, flags);
}

// ------------------------------------------------------- per-shot flags

/// Whether the movement a shot is linked to (if any) holds several shots.
/// A shot without a movement looks for the id `u32::MAX`.
pub open spec fn primary_is_multi_shot(cs: Seq<CandidateView>, primary: Option<u32>) -> bool {
    let id = match primary {
        Some(m) => m,
        None => u32::MAX,
    };
    exists|i: int|
        0 <= i < cs.len() && cs[i].id == id && #[trigger] cs[i].flags.contains(
            QualityFlag::MultiShotMovement,
        )
}

pub open spec fn opt_flag(raise: bool, f: QualityFlag) -> Seq<QualityFlag> {
    if raise {
        seq![f]
    } else {
        Seq::empty()
    }
}

/// The flags of one analysed shot: those of its link, the multi-shot flag
/// when its movement carries it, and, for a shot linked to a movement, a
/// camera/input mismatch and a zero acquisition duration when they were
/// measured; listed as a report lists them.
pub open spec fn shot_flags_spec(
    link_flags: Seq<QualityFlag>,
    cs: Seq<CandidateView>,
    primary: Option<u32>,
    camera_input_mismatch: bool,
    zero_acquisition: bool,
) -> Seq<QualityFlag> {
    normalized(
        link_flags + opt_flag(primary_is_multi_shot(cs, primary), QualityFlag::MultiShotMovement)
            + opt_flag(primary is Some && camera_input_mismatch, QualityFlag::CameraInputMismatch)
            + opt_flag(primary is Some && zero_acquisition, QualityFlag::ZeroAcquisitionDuration),
    )
}

fn candidate_is_multi_shot(candidates: &[MovementCandidate], id: u32) -> (b: bool)
    ensures
        b == exists|i: int|
            0 <= i < candidates@.len() && views(candidates@)[i].id == id && #[trigger] views(
                candidates@,
            )[i].flags.contains(QualityFlag::MultiShotMovement),
{
    let ghost cs = views(candidates@);
    let mut k: usize = 0;
    while k < candidates.len()
        invariant
            cs == views(candidates@),
            k <= candidates@.len(),
            forall|i: int|
                0 <= i < k ==> !(cs[i].id == id && #[trigger] cs[i].flags.contains(
                    QualityFlag::MultiShotMovement,
                )),
        decreases candidates.len() - k,
    {
        let c = &candidates[k];
        assert(cs[k as int] == c@);
        if c.id == id && contains_flag(c.flags.as_slice(), QualityFlag::MultiShotMovement) {
            assert(cs[k as int].flags.contains(QualityFlag::MultiShotMovement));
            return true;
        }
        k = k + 1;
    }
    false
}

/// The flags of one analysed shot, as `shot_flags_spec` says.
pub fn shot_quality_flags(
    link_flags: &[QualityFlag],
    candidates: &[MovementCandidate],
    primary: Option<u32>,
    camera_input_mismatch: bool,
    zero_acquisition: bool,
) -> (r: Vec<QualityFlag>)
    ensures
        r@ == shot_flags_spec(
            link_flags@,
            views(candidates@),
            primary,
            camera_input_mismatch,
            zero_acquisition,
        ),
{
    let mut all: Vec<QualityFlag> = Vec::new();
    let mut k: usize = 0;
    while k < link_flags.len()
        invariant
            k <= link_flags@.len(),
            all@ == link_flags@.take(k as int),
        decreases link_flags.len() - k,
    {
        all.push(link_flags[k]);
        assert(link_flags@.take(k + 1) =~= link_flags@.take(k as int).push(link_flags@[k as int]));
        k = k + 1;
    }
    assert(link_flags@.take(link_flags@.len() as int) =~= link_flags@);
    let id = match primary {
        Some(m) => m,
        None => u32::MAX,
    };
    let multi = candidate_is_multi_shot(candidates, id);
    let ghost s0 = all@;
    if multi {
        all.push(QualityFlag::MultiShotMovement);
    }
    let ghost s1 = all@;
    assert(s1 =~= s0 + opt_flag(multi, QualityFlag::MultiShotMovement));
    let linked = primary.is_some();
    if linked && camera_input_mismatch {
        all.push(QualityFlag::CameraInputMismatch);
    }
    let ghost s2 = all@;
    assert(s2 =~= s1 + opt_flag(linked && camera_input_mismatch, QualityFlag::CameraInputMismatch));
    if linked && zero_acquisition {
        all.push(QualityFlag::ZeroAcquisitionDuration);
    }
    assert(all@ =~= s2 + opt_flag(linked && zero_acquisition, QualityFlag::ZeroAcquisitionDuration));
    normalize_flags(all.as_slice())
}

/// The flags of a whole trial: its timestamp-gap flags and, when the
/// reconstruction found defects, a discontinuity flag; listed as a report
/// lists them.
pub fn trial_quality_flags(gap_flags: &[QualityFlag], discontinuity_count: u32) -> (r: Vec<QualityFlag>)
    ensures
        r@ == normalized(
            gap_flags@ + opt_flag(discontinuity_count > 0, QualityFlag::ReconstructionDiscontinuity),
        ),
{
    let mut all: Vec<QualityFlag> = Vec::new();
    let mut k: usize = 0;
    while k < gap_flags.len()
        invariant
            k <= gap_flags@.len(),
            all@ == gap_flags@.take(k as int),
        decreases gap_flags.len() - k,
    {
        all.push(gap_flags[k]);
        assert(gap_flags@.take(k + 1) =~= gap_flags@.take(k as int).push(gap_flags@[k as int]));
        k = k + 1;
    }
    assert(gap_flags@.take(gap_flags@.len() as int) =~= gap_flags@);
    let ghost s0 = all@;
    if discontinuity_count > 0 {
        all.push(QualityFlag::ReconstructionDiscontinuity);
    }
    assert(all@ =~= s0 + opt_flag(discontinuity_count > 0, QualityFlag::ReconstructionDiscontinuity));
    normalize_flags(all.as_slice())
}

} // verus!
