use vstd::prelude::*;

verus! {

/// One raw `WM_INPUT` mouse report as it leaves the capture queue.
#[derive(Debug, Clone, Copy, PartialEq, Eq, Structural)]
pub struct MouseSample {
    pub timestamp_ns: u64,
    pub dx: i32,
    pub dy: i32,
    pub buttons: u32,
    pub sequence_number: u64,
}

/// Counters that describe how faithful the raw input stream was.
#[derive(Debug, Clone, Copy, PartialEq, Eq, Structural)]
pub struct InputIntegrityReport {
    pub samples_received: u64,
    pub sequence_gaps: u64,
    pub duplicate_sequences: u64,
    pub out_of_order_samples: u64,
    pub timestamp_regressions: u64,
}

impl InputIntegrityReport {
    /// The pipeline is suspect as soon as any anomaly counter is non-zero.
    pub open spec fn suspect(&self) -> bool {
        self.sequence_gaps > 0 || self.duplicate_sequences > 0 || self.out_of_order_samples > 0
            || self.timestamp_regressions > 0
    }

    pub fn is_pipeline_suspect(&self) -> (r: bool)
        ensures
            r == self.suspect(),
    {
        self.sequence_gaps > 0 || self.duplicate_sequences > 0 || self.out_of_order_samples > 0
            || self.timestamp_regressions > 0
    }
}

/// The axis along which the field of view is held fixed.
#[derive(Debug, Clone, Copy, PartialEq, Eq, Structural)]
pub enum FovAxis {
    Horizontal,
}

impl FovAxis {
    /// The text stored for the axis in the configuration table.
    pub fn as_str(self) -> (s: &'static str)
        ensures
            s@ == "Horizontal"@,
    {
        match self {
            FovAxis::Horizontal => "Horizontal",
        }
    }
}

/// How mouse acceleration was configured for a session.
#[derive(Debug, Clone, PartialEq)]
pub struct AccelerationConfig {
    pub enabled: bool,
    pub model: String,
    pub processor_id: String,
    pub processor_version: String,
    pub processor_config_json: String,
}

/// One validation session as stored: who ran it, under which
/// configuration, and when it started and ended.
#[derive(Debug, Clone, PartialEq)]
pub struct SessionRecord {
    pub id: String,
    pub app_version: String,
    pub experiment_id: String,
    pub experiment_version: String,
    pub config_id: String,
    pub seed: u64,
    pub start_unix_ms: i64,
    pub end_unix_ms: Option<i64>,
}

} // verus!
