use vstd::prelude::*;

verus! {

pub const COMPARISON_VERSION: &'static str = "2";

/// Whether two trials ran under the same fairness-relevant conditions.
#[derive(Debug, Clone, Copy, PartialEq, Eq, Structural)]
pub enum MatchStatus {
    Matched,
    Mismatched,
}

/// What the condition differences between two trials mean for comparing them.
#[derive(Debug, Clone, Copy, PartialEq, Eq, Structural)]
pub enum ComparisonValidity {
    FairMatch,
    IntentionalParameterDiff,
    InvalidCrossTask,
    OtherMismatch,
}

/// One condition that differs between trial A and trial B.
#[derive(Debug, Clone, PartialEq)]
pub struct ConditionMismatch {
    pub key: String,
    pub value_a: String,
    pub value_b: String,
}

/// The processors that two compared trials ran with, side by side.
/// Processor differences are what a comparison sets out to measure, so they
/// are reported here and never counted as condition mismatches.
#[derive(Debug, Clone, PartialEq)]
pub struct ProcessorDiff {
    pub processor_id_a: String,
    pub processor_id_b: String,
    pub processor_version_a: String,
    pub processor_version_b: String,
    pub processor_config_json_a: String,
    pub processor_config_json_b: String,
}

pub open spec fn mismatch_view(m: ConditionMismatch) -> (Seq<char>, Seq<char>, Seq<char>) {
    (m.key@, m.value_a@, m.value_b@)
}

pub open spec fn mismatch_views(ms: Seq<ConditionMismatch>) -> Seq<(Seq<char>, Seq<char>, Seq<char>)> {
    ms.map_values(|m: ConditionMismatch| mismatch_view(m))
}

/// Record the condition `key` when its two values differ.
pub fn push_if_ne(out: &mut Vec<ConditionMismatch>, key: &str, va: &str, vb: &str)
    ensures
        mismatch_views(final(out)@) == if va@ != vb@ {
            mismatch_views(old(out)@).push((key@, va@, vb@))
        } else {
            mismatch_views(old(out)@)
        },
{
    let a = String::from_str(va);
    let b = String::from_str(vb);
    let ghost before = out@;
    if a != b {
        out.push(ConditionMismatch { key: String::from_str(key), value_a: a, value_b: b });
        assert(mismatch_views(out@) =~= mismatch_views(before).push((key@, va@, vb@)));
    }
}

/// Keys whose difference is a deliberate change of sensitivity parameters.
pub open spec fn is_intentional_key(k: Seq<char>) -> bool {
    k == "sensitivity"@ || k == "dpi"@
}

pub open spec fn is_task_key(k: Seq<char>) -> bool {
    k == "trial_type"@ || k == "task_version"@
}

/// No differences is a fair match; a different task or task version makes
/// the comparison invalid; differences only in sensitivity or DPI are an
/// intentional parameter change; anything else is some other mismatch.
pub open spec fn validity_for(keys: Seq<Seq<char>>) -> ComparisonValidity {
    if keys.len() == 0 {
        ComparisonValidity::FairMatch
    } else if exists|i: int| 0 <= i < keys.len() && is_task_key(#[trigger] keys[i]) {
        ComparisonValidity::InvalidCrossTask
    } else if forall|i: int| 0 <= i < keys.len() ==> is_intentional_key(#[trigger] keys[i]) {
        ComparisonValidity::IntentionalParameterDiff
    } else {
        ComparisonValidity::OtherMismatch
    }
}

pub open spec fn mismatch_keys(ms: Seq<ConditionMismatch>) -> Seq<Seq<char>> {
    ms.map_values(|m: ConditionMismatch| m.key@)
}

/// How a comparison is judged from the keys that differ, whatever their
/// order: no difference is a fair match; a different task or task version
/// makes it cross-task; otherwise it is an intentional parameter change
/// exactly when every differing key is `sensitivity` or `dpi`, and some
/// other mismatch as soon as one key is neither. Two lists holding the same
/// keys are judged alike.
pub proof fn law_validity_classification(keys: Seq<Seq<char>>, other: Seq<Seq<char>>)
    ensures
        (validity_for(keys) == ComparisonValidity::FairMatch) <==> keys.len() == 0,
        (validity_for(keys) == ComparisonValidity::InvalidCrossTask) <==> (exists|i: int|
            0 <= i < keys.len() && (#[trigger] keys[i] == "trial_type"@ || keys[i] == "task_version"@)),
        (validity_for(keys) == ComparisonValidity::IntentionalParameterDiff) <==> (keys.len() > 0 && forall|i: int|
            0 <= i < keys.len() ==> (#[trigger] keys[i] == "sensitivity"@ || keys[i] == "dpi"@)),
        (validity_for(keys) == ComparisonValidity::OtherMismatch) <==> ((forall|i: int|
            0 <= i < keys.len() ==> !(#[trigger] keys[i] == "trial_type"@ || keys[i] == "task_version"@))
            && exists|i: int|
            0 <= i < keys.len() && !(#[trigger] keys[i] == "sensitivity"@ || keys[i] == "dpi"@)),
        keys.to_set() == other.to_set() ==> validity_for(keys) == validity_for(other),
{
    if keys.to_set() == other.to_set() {
        assert forall|i: int| 0 <= i < keys.len() implies other.contains(#[trigger] keys[i]) by {
            assert(keys.to_set().contains(keys[i]));
        }
        assert forall|i: int| 0 <= i < other.len() implies keys.contains(#[trigger] other[i]) by {
            assert(other.to_set().contains(other[i]));
        }
        if keys.len() == 0 && other.len() > 0 {
            assert(keys.contains(other[0]));
        }
        if other.len() == 0 && keys.len() > 0 {
            assert(other.contains(keys[0]));
        }
        if exists|i: int| 0 <= i < keys.len() && is_task_key(#[trigger] keys[i]) {
            let i = choose|i: int| 0 <= i < keys.len() && is_task_key(#[trigger] keys[i]);
            let j = choose|j: int| 0 <= j < other.len() && other[j] == keys[i];
            assert(is_task_key(other[j]));
        }
        if exists|i: int| 0 <= i < other.len() && is_task_key(#[trigger] other[i]) {
            let i = choose|i: int| 0 <= i < other.len() && is_task_key(#[trigger] other[i]);
            let j = choose|j: int| 0 <= j < keys.len() && keys[j] == other[i];
            assert(is_task_key(keys[j]));
        }
        if !(forall|i: int| 0 <= i < keys.len() ==> is_intentional_key(#[trigger] keys[i])) {
            let i = choose|i: int| 0 <= i < keys.len() && !is_intentional_key(#[trigger] keys[i]);
            let j = choose|j: int| 0 <= j < other.len() && other[j] == keys[i];
            assert(!is_intentional_key(other[j]));
        }
        if !(forall|i: int| 0 <= i < other.len() ==> is_intentional_key(#[trigger] other[i])) {
            let i = choose|i: int| 0 <= i < other.len() && !is_intentional_key(#[trigger] other[i]);
            let j = choose|j: int| 0 <= j < keys.len() && keys[j] == other[i];
            assert(!is_intentional_key(keys[j]));
        }
    }
    if validity_for(keys) == ComparisonValidity::IntentionalParameterDiff {
        assert forall|i: int| 0 <= i < keys.len() implies (#[trigger] keys[i] == "sensitivity"@ || keys[i]
            == "dpi"@) by {
            assert(is_intentional_key(keys[i]));
        }
    }
    if keys.len() > 0 && forall|i: int| 0 <= i < keys.len() ==> (#[trigger] keys[i] == "sensitivity"@ || keys[i]
        == "dpi"@) {
        assert forall|i: int| 0 <= i < keys.len() implies is_intentional_key(#[trigger] keys[i]) by {
            assert(keys[i] == "sensitivity"@ || keys[i] == "dpi"@);
        }
        assert forall|i: int| 0 <= i < keys.len() implies !is_task_key(#[trigger] keys[i]) by {
            assert(keys[i] == "sensitivity"@ || keys[i] == "dpi"@);
            proof_literals_differ();
        }
    }
    if exists|i: int| 0 <= i < keys.len() && (#[trigger] keys[i] == "trial_type"@ || keys[i] == "task_version"@) {
        let i = choose|i: int| 0 <= i < keys.len() && (#[trigger] keys[i] == "trial_type"@ || keys[i]
            == "task_version"@);
        assert(is_task_key(keys[i]));
    }
    if validity_for(keys) == ComparisonValidity::InvalidCrossTask {
        let i = choose|i: int| 0 <= i < keys.len() && is_task_key(#[trigger] keys[i]);
        assert(keys[i] == "trial_type"@ || keys[i] == "task_version"@);
    }
    if validity_for(keys) == ComparisonValidity::OtherMismatch {
        assert forall|i: int| 0 <= i < keys.len() implies !(#[trigger] keys[i] == "trial_type"@ || keys[i]
            == "task_version"@) by {
            assert(!is_task_key(keys[i]));
        }
        let i = choose|i: int| 0 <= i < keys.len() && !is_intentional_key(#[trigger] keys[i]);
        assert(!(keys[i] == "sensitivity"@ || keys[i] == "dpi"@));
    }
    if (forall|i: int| 0 <= i < keys.len() ==> !(#[trigger] keys[i] == "trial_type"@ || keys[i] == "task_version"@))
        && exists|i: int| 0 <= i < keys.len() && !(#[trigger] keys[i] == "sensitivity"@ || keys[i] == "dpi"@) {
        let i = choose|i: int| 0 <= i < keys.len() && !(#[trigger] keys[i] == "sensitivity"@ || keys[i] == "dpi"@);
        assert(!is_intentional_key(keys[i]));
        assert forall|j: int| 0 <= j < keys.len() implies !is_task_key(#[trigger] keys[j]) by {
            assert(!(keys[j] == "trial_type"@ || keys[j] == "task_version"@));
        }
    }
}

proof fn proof_literals_differ()
    ensures
        "sensitivity"@ != "trial_type"@,
        "sensitivity"@ != "task_version"@,
        "dpi"@ != "trial_type"@,
        "dpi"@ != "task_version"@,
{
    reveal_strlit("sensitivity");
    reveal_strlit("trial_type");
    reveal_strlit("task_version");
    reveal_strlit("dpi");
    assert("sensitivity"@[0] != "trial_type"@[0]);
    assert("sensitivity"@[0] != "task_version"@[0]);
    assert("dpi"@[0] != "trial_type"@[0]);
    assert("dpi"@[0] != "task_version"@[0]);
}

fn str_is(s: &String, lit: &str) -> (b: bool)
    ensures
        b == (s@ == lit@),
{
    *s == String::from_str(lit)
}

pub fn validity_from_mismatches(mismatches: &[ConditionMismatch]) -> (v: ComparisonValidity)
    ensures
        v == validity_for(mismatch_keys(mismatches@)),
        (v == ComparisonValidity::IntentionalParameterDiff) <==> (mismatches@.len() > 0 && forall|i: int|
            0 <= i < mismatches@.len() ==> (#[trigger] mismatches@[i].key@ == "sensitivity"@
                || mismatches@[i].key@ == "dpi"@)),
        (v == ComparisonValidity::InvalidCrossTask) <==> (exists|i: int|
            0 <= i < mismatches@.len() && (#[trigger] mismatches@[i].key@ == "trial_type"@
                || mismatches@[i].key@ == "task_version"@)),
{
    let v = validity_scan(mismatches);
    proof {
        let keys = mismatch_keys(mismatches@);
        law_validity_classification(keys, keys);
        assert forall|i: int| 0 <= i < mismatches@.len() implies #[trigger] mismatches@[i].key@ == keys[i] by {}
        if exists|i: int| 0 <= i < mismatches@.len() && (#[trigger] mismatches@[i].key@ == "trial_type"@
            || mismatches@[i].key@ == "task_version"@) {
            let i = choose|i: int| 0 <= i < mismatches@.len() && (#[trigger] mismatches@[i].key@ == "trial_type"@
                || mismatches@[i].key@ == "task_version"@);
            assert(keys[i] == mismatches@[i].key@);
        }
        if exists|i: int| 0 <= i < keys.len() && (#[trigger] keys[i] == "trial_type"@ || keys[i] == "task_version"@) {
            let i = choose|i: int| 0 <= i < keys.len() && (#[trigger] keys[i] == "trial_type"@ || keys[i]
                == "task_version"@);
            assert(keys[i] == mismatches@[i].key@);
        }
        if mismatches@.len() > 0 && forall|i: int|
            0 <= i < mismatches@.len() ==> (#[trigger] mismatches@[i].key@ == "sensitivity"@
                || mismatches@[i].key@ == "dpi"@) {
            assert forall|i: int| 0 <= i < keys.len() implies (#[trigger] keys[i] == "sensitivity"@ || keys[i]
                == "dpi"@) by {
                assert(keys[i] == mismatches@[i].key@);
            }
        }
        if keys.len() > 0 && forall|i: int| 0 <= i < keys.len() ==> (#[trigger] keys[i] == "sensitivity"@ || keys[i]
            == "dpi"@) {
            assert forall|i: int| 0 <= i < mismatches@.len() implies (#[trigger] mismatches@[i].key@ == "sensitivity"@
                || mismatches@[i].key@ == "dpi"@) by {
                assert(keys[i] == mismatches@[i].key@);
            }
        }
    }
    v
}

fn validity_scan(mismatches: &[ConditionMismatch]) -> (v: ComparisonValidity)
    ensures
        v == validity_for(mismatch_keys(mismatches@)),
{
    let ghost keys = mismatch_keys(mismatches@);
    if mismatches.len() == 0 {
        return ComparisonValidity::FairMatch;
    }
    let mut k: usize = 0;
    while k < mismatches.len()
        invariant
            keys == mismatch_keys(mismatches@),
            k <= mismatches@.len(),
            forall|i: int| 0 <= i < k ==> !is_task_key(#[trigger] keys[i]),
        decreases mismatches.len() - k,
    {
        let key = &mismatches[k].key;
        assert(keys[k as int] == key@);
        if str_is(key, "trial_type") || str_is(key, "task_version") {
            return ComparisonValidity::InvalidCrossTask;
        }
        k = k + 1;
    }
    let mut k: usize = 0;
    while k < mismatches.len()
        invariant
            keys == mismatch_keys(mismatches@),
            k <= mismatches@.len(),
            forall|i: int| 0 <= i < keys.len() ==> !is_task_key(#[trigger] keys[i]),
            forall|i: int| 0 <= i < k ==> is_intentional_key(#[trigger] keys[i]),
        decreases mismatches.len() - k,
    {
        let key = &mismatches[k].key;
        assert(keys[k as int] == key@);
        if !(str_is(key, "sensitivity") || str_is(key, "dpi")) {
            return ComparisonValidity::OtherMismatch;
        }
        k = k + 1;
    }
    ComparisonValidity::IntentionalParameterDiff
}

/// Matched exactly when there is no condition difference.
pub fn match_status_of(mismatches: &[ConditionMismatch]) -> (s: MatchStatus)
    ensures
        s == if mismatches@.len() == 0 {
            MatchStatus::Matched
        } else {
            MatchStatus::Mismatched
        },
{
    if mismatches.len() == 0 {
        MatchStatus::Matched
    } else {
        MatchStatus::Mismatched
    }
}

/// Which processors a comparison candidate may use.
#[derive(Debug, Clone, PartialEq, Eq)]
pub enum ProcessorFilter {
    Any,
    MustDiffer,
    Exact { processor_id: String },
}

/// How comparison candidates are searched.
#[derive(Debug, Clone, PartialEq, Eq)]
pub struct CandidateCriteria {
    pub processor_filter: ProcessorFilter,
    pub list_limit: usize,
}

impl Default for CandidateCriteria {
    fn default() -> (c: Self)
        ensures
            c.processor_filter == ProcessorFilter::MustDiffer,
            c.list_limit == 200,
    {
        CandidateCriteria { processor_filter: ProcessorFilter::MustDiffer, list_limit: 200 }
    }
}

pub open spec fn filter_accepts(reference_id: Seq<char>, candidate_id: Seq<char>, filter: ProcessorFilter) -> bool {
    match filter {
        ProcessorFilter::Any => true,
        ProcessorFilter::MustDiffer => candidate_id != reference_id,
        ProcessorFilter::Exact { processor_id } => candidate_id == processor_id@,
    }
}

/// Whether a candidate's processor passes the filter, given the reference
/// trial's processor.
pub fn processor_filter_ok(reference_processor_id: &str, candidate_processor_id: &str, filter: &ProcessorFilter) -> (b: bool)
    ensures
        b == filter_accepts(reference_processor_id@, candidate_processor_id@, *filter),
{
    let cand = String::from_str(candidate_processor_id);
    match filter {
        ProcessorFilter::Any => true,
        ProcessorFilter::MustDiffer => cand != String::from_str(reference_processor_id),
        ProcessorFilter::Exact { processor_id } => cand == *processor_id,
    }
}

} // verus!
