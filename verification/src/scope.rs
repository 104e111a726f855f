use vstd::prelude::*;

verus! {

/// How far a family of metrics applies to a trial type.
#[derive(Debug, Clone, Copy, PartialEq, Eq, Structural)]
pub enum Applicability {
    Applicable,
    SecondaryReference,
    Partial,
    NotApplicable,
}

impl Applicability {
    pub open spec fn name(self) -> Seq<char> {
        match self {
            Applicability::Applicable => "applicable"@,
            Applicability::SecondaryReference => "secondary_reference"@,
            Applicability::Partial => "partial"@,
            Applicability::NotApplicable => "not_applicable"@,
        }
    }

    /// The snake_case name used in reports.
    pub fn as_str(self) -> (s: &'static str)
        ensures
            s@ == self.name(),
    {
        match self {
            Applicability::Applicable => "applicable",
            Applicability::SecondaryReference => "secondary_reference",
            Applicability::Partial => "partial",
            Applicability::NotApplicable => "not_applicable",
        }
    }
}

/// Which metric families apply to a trial type.
#[derive(Debug, Clone, Copy, PartialEq, Eq, Structural)]
pub struct MetricScope {
    pub shot_accuracy: Applicability,
    pub acquisition_metrics: Applicability,
    pub continuous_tracking_metrics: Applicability,
    pub click_association: Applicability,
}

/// TRACKING scores hold-to-fire shots over a moving target: acquisition and
/// continuous metrics are secondary references and click association only
/// partial. Every other trial type is a click task: all but continuous
/// tracking metrics apply.
pub open spec fn scope_for(trial_type: Seq<char>) -> MetricScope {
    if trial_type == "TRACKING"@ {
        MetricScope {
            shot_accuracy: Applicability::Applicable,
            acquisition_metrics: Applicability::SecondaryReference,
            continuous_tracking_metrics: Applicability::SecondaryReference,
            click_association: Applicability::Partial,
        }
    } else {
        MetricScope {
            shot_accuracy: Applicability::Applicable,
            acquisition_metrics: Applicability::Applicable,
            continuous_tracking_metrics: Applicability::NotApplicable,
            click_association: Applicability::Applicable,
        }
    }
}

pub fn metric_scope_for_trial_type(trial_type: &str) -> (s: MetricScope)
    ensures
        s == scope_for(trial_type@),
{
    let t = String::from_str(trial_type);
    let tracking = String::from_str("TRACKING");
    if t == tracking {
        MetricScope {
            shot_accuracy: Applicability::Applicable,
            acquisition_metrics: Applicability::SecondaryReference,
            continuous_tracking_metrics: Applicability::SecondaryReference,
            click_association: Applicability::Partial,
        }
    } else {
        MetricScope {
            shot_accuracy: Applicability::Applicable,
            acquisition_metrics: Applicability::Applicable,
            continuous_tracking_metrics: Applicability::NotApplicable,
            click_association: Applicability::Applicable,
        }
    }
}

} // verus!
