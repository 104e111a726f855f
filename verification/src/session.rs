use vstd::prelude::*;

use crate::processor::{NoAcceleration, ProcessorKind};
use crate::types::{AccelerationConfig, SessionRecord};

verus! {

/// Version of the validation lab written into its session records.
pub const APP_VERSION: &'static str = "0.1.0";

/// Experiment that a validation session belongs to.
pub const EXPERIMENT_ID: &'static str = "validation_lab";

/// Version of that experiment.
pub const EXPERIMENT_VERSION: &'static str = "0.1.0";

/// The record of a validation session that starts at `start_unix_ms` under
/// configuration `config_id`: no seed, not ended yet.
pub fn session_start_record(session_id: &str, config_id: &str, start_unix_ms: i64) -> (r: SessionRecord)
    ensures
        r.id@ == session_id@,
        r.app_version@ == APP_VERSION@,
        r.experiment_id@ == EXPERIMENT_ID@,
        r.experiment_version@ == EXPERIMENT_VERSION@,
        r.config_id@ == config_id@,
        r.seed == 0,
        r.start_unix_ms == start_unix_ms,
        r.end_unix_ms is None,
{
    SessionRecord {
        id: String::from_str(session_id),
        app_version: String::from_str(APP_VERSION),
        experiment_id: String::from_str(EXPERIMENT_ID),
        experiment_version: String::from_str(EXPERIMENT_VERSION),
        config_id: String::from_str(config_id),
        seed: 0,
        start_unix_ms,
        end_unix_ms: None,
    }
}

/// The acceleration recorded for a validation session: off, model `none`,
/// with the identity processor.
pub fn validation_acceleration_config() -> (c: AccelerationConfig)
    ensures
        !c.enabled,
        c.model@ == "none"@,
        c.processor_id@ == ProcessorKind::NoAcceleration.id_text(),
        c.processor_version@ == ProcessorKind::NoAcceleration.version_text(),
        c.processor_config_json@ == "{}"@,
{
    let p = NoAcceleration;
    AccelerationConfig {
        enabled: false,
        model: String::from_str("none"),
        processor_id: String::from_str(p.id()),
        processor_version: String::from_str(p.version()),
        processor_config_json: p.config_json(),
    }
}

/// Whether a sensitivity validation session is running.
#[derive(Debug, Clone, Copy, PartialEq, Eq, Structural)]
pub enum ValidationState {
    Idle,
    Running,
}

impl Default for ValidationState {
    fn default() -> (s: Self)
        ensures
            s == ValidationState::Idle,
    {
        ValidationState::Idle
    }
}

impl ValidationState {
    pub fn is_running(self) -> (b: bool)
        ensures
            b == (self == ValidationState::Running),
    {
        match self {
            ValidationState::Running => true,
            ValidationState::Idle => false,
        }
    }
}

/// A validation session may start only when none is running.
pub fn check_can_start_validation(state: ValidationState) -> (r: Result<(), String>)
    ensures
        match r {
            Ok(()) => state == ValidationState::Idle,
            Err(msg) => state == ValidationState::Running && msg@
                == "A validation session is already running."@,
        },
{
    if state.is_running() {
        return Err(String::from_str("A validation session is already running."));
    }
    Ok(())
}

/// A validation session may end only when one is running and has an id.
pub fn check_can_end_validation(state: ValidationState, active_session_id: Option<&str>) -> (r: Result<(), String>)
    ensures
        match r {
            Ok(()) => state == ValidationState::Running && active_session_id is Some,
            Err(msg) => if state != ValidationState::Running {
                msg@ == "No validation session is running."@
            } else {
                active_session_id is None && msg@ == "Running validation has no active session ID."@
            },
        },
{
    if !state.is_running() {
        return Err(String::from_str("No validation session is running."));
    }
    match active_session_id {
        Some(_) => Ok(()),
        None => Err(String::from_str("Running validation has no active session ID.")),
    }
}

/// Status line shown once a session has started.
pub fn validation_running_message(session_id: &str) -> (s: String)
    ensures
        s@ == "Validation running: "@ + session_id@,
{
    String::from_str("Validation running: ").concat(session_id)
}

/// Status line shown once a session has completed.
pub fn validation_completed_message(session_id: &str) -> (s: String)
    ensures
        s@ == "Validation completed: "@ + session_id@,
{
    String::from_str("Validation completed: ").concat(session_id)
}

/// A `u64` column value as an SQLite INTEGER, or the error naming `field`
/// when it does not fit in an `i64`.
pub fn as_i64(value: u64, field: &str) -> (r: Result<i64, String>)
    ensures
        match r {
            Ok(v) => value <= i64::MAX && v == value,
            Err(msg) => value > i64::MAX && msg@ == field@ + " exceeds SQLite INTEGER range"@,
        },
{
    if value <= 0x7fff_ffff_ffff_ffff {
        Ok(value as i64)
    } else {
        Err(String::from_str(field).concat(" exceeds SQLite INTEGER range"))
    }
}

/// Milliseconds since the Unix epoch as the `i64` that records store, or
/// the error when the clock reads beyond that range.
pub fn unix_ms_from_millis(millis: u128) -> (r: Result<i64, String>)
    ensures
        match r {
            Ok(v) => millis <= i64::MAX && v == millis,
            Err(msg) => millis > i64::MAX && msg@ == "system time exceeds i64 milliseconds"@,
        },
{
    if millis <= 0x7fff_ffff_ffff_ffff {
        Ok(millis as i64)
    } else {
        Err(String::from_str("system time exceeds i64 milliseconds"))
    }
}

/// Only a completed aim trial may be stored.
pub fn check_completed_status(status: &str) -> (r: Result<(), String>)
    ensures
        match r {
            Ok(()) => status@ == "completed"@,
            Err(msg) => status@ != "completed"@ && msg@ == "aim trial status must be \"completed\", got \""@
                + status@ + "\""@,
        },
{
    if String::from_str(status) == String::from_str("completed") {
        Ok(())
    } else {
        let msg = String::from_str("aim trial status must be \"completed\", got \"");
        Err(msg.concat(status).concat("\""))
    }
}

/// Sequence numbering and raw time steps of the buffered aim input samples.
#[derive(Debug, Clone, Copy, PartialEq, Eq, Structural)]
pub struct InputSequencer {
    pub input_seq: u64,
    pub last_raw_timestamp_ns: Option<u64>,
}

impl Default for InputSequencer {
    fn default() -> (s: Self)
        ensures
            s.input_seq == 0,
            s.last_raw_timestamp_ns is None,
    {
        InputSequencer { input_seq: 0, last_raw_timestamp_ns: None }
    }
}

impl InputSequencer {
    /// Raw QPC interval that the next sample at `timestamp_ns` records: the
    /// time since the previous sample (0 for the first, never negative).
    pub fn next_input_dt_ns(&self, timestamp_ns: u64) -> (dt: u64)
        ensures
            dt == match self.last_raw_timestamp_ns {
                Some(prev) => if timestamp_ns >= prev {
                    (timestamp_ns - prev) as u64
                } else {
                    0
                },
                None => 0,
            },
    {
        match self.last_raw_timestamp_ns {
            Some(prev) => timestamp_ns.saturating_sub(prev),
            None => 0,
        }
    }

    /// Number the sample at `timestamp_ns`: returns its sequence number and
    /// raw interval, and remembers it as the previous sample.
    pub fn advance(&mut self, timestamp_ns: u64) -> (r: (u64, u64))
        ensures
            r.0 == old(self).input_seq,
            r.1 == match old(self).last_raw_timestamp_ns {
                Some(prev) => if timestamp_ns >= prev {
                    (timestamp_ns - prev) as u64
                } else {
                    0
                },
                None => 0,
            },
            final(self).input_seq == if old(self).input_seq == u64::MAX {
                u64::MAX
            } else {
                (old(self).input_seq + 1) as u64
            },
            final(self).last_raw_timestamp_ns == Some(timestamp_ns),
    {
        let dt = self.next_input_dt_ns(timestamp_ns);
        let seq = self.input_seq;
        self.input_seq = self.input_seq.saturating_add(1);
        self.last_raw_timestamp_ns = Some(timestamp_ns);
        (seq, dt)
    }

    /// Forget all samples (start or cancel of a run).
    pub fn clear(&mut self)
        ensures
            final(self).input_seq == 0,
            final(self).last_raw_timestamp_ns is None,
    {
        self.input_seq = 0;
        self.last_raw_timestamp_ns = None;
    }
}

/// What the frame does with the queued mouse samples: while the cursor is
/// free for the menu they are discarded (no camera motion, no counters, no
/// telemetry); otherwise each moves the camera, and counters and buffers
/// take it only while a validation session runs.
pub fn sample_handling(look_enabled: bool, validation_running: bool) -> (r: (bool, bool))
    ensures
        r.0 == look_enabled,
        r.1 == (look_enabled && validation_running),
{
    (look_enabled, look_enabled && validation_running)
}

/// `v` clamped into the range of `i64`.
pub open spec fn clamp_i64(v: int) -> int {
    if v > i64::MAX {
        i64::MAX as int
    } else if v < i64::MIN {
        i64::MIN as int
    } else {
        v
    }
}

/// `v` clamped to at most `u64::MAX`.
pub open spec fn clamp_u64(v: int) -> int {
    if v > u64::MAX {
        u64::MAX as int
    } else {
        v
    }
}

/// `|v|`.
pub open spec fn abs_int(v: int) -> int {
    if v < 0 {
        -v
    } else {
        v
    }
}

/// Integer counters of the live mouse input: the last raw step, the net and
/// absolute counts since the last reset, and the samples seen this frame.
#[derive(Debug, Clone, Copy, PartialEq, Eq, Structural)]
pub struct InputCounters {
    pub last_dx: i32,
    pub last_dy: i32,
    pub net_dx: i64,
    pub net_dy: i64,
    pub abs_dx: u64,
    pub samples_this_frame: usize,
}

impl Default for InputCounters {
    fn default() -> (s: Self)
        ensures
            s.last_dx == 0 && s.last_dy == 0,
            s.net_dx == 0 && s.net_dy == 0 && s.abs_dx == 0,
            s.samples_this_frame == 0,
    {
        InputCounters { last_dx: 0, last_dy: 0, net_dx: 0, net_dy: 0, abs_dx: 0, samples_this_frame: 0 }
    }
}

fn saturating_add_i64(a: i64, b: i32) -> (r: i64)
    ensures
        r == clamp_i64(a + b),
{
    let s: i128 = a as i128 + b as i128;
    if s > 0x7fff_ffff_ffff_ffff {
        0x7fff_ffff_ffff_ffff
    } else if s < -0x8000_0000_0000_0000 {
        -0x8000_0000_0000_0000
    } else {
        s as i64
    }
}

impl InputCounters {
    /// A new frame starts: no sample seen yet.
    pub fn begin_frame(&mut self)
        ensures
            *final(self) == (InputCounters { samples_this_frame: 0, ..*old(self) }),
    {
        self.samples_this_frame = 0;
    }

    /// Count one raw sample `(dx, dy)`. The last step is always kept; the net
    /// and absolute counts (saturating) move only when `accumulate`.
    pub fn record(&mut self, dx: i32, dy: i32, accumulate: bool)
        requires
            old(self).samples_this_frame < usize::MAX,
        ensures
            final(self).last_dx == dx,
            final(self).last_dy == dy,
            final(self).samples_this_frame == old(self).samples_this_frame + 1,
            accumulate ==> final(self).net_dx == clamp_i64(old(self).net_dx + dx),
            accumulate ==> final(self).net_dy == clamp_i64(old(self).net_dy + dy),
            accumulate ==> final(self).abs_dx == clamp_u64(old(self).abs_dx + abs_int(dx as int)),
            !accumulate ==> final(self).net_dx == old(self).net_dx && final(self).net_dy
                == old(self).net_dy && final(self).abs_dx == old(self).abs_dx,
    {
        self.last_dx = dx;
        self.last_dy = dy;
        if accumulate {
            self.net_dx = saturating_add_i64(self.net_dx, dx);
            self.net_dy = saturating_add_i64(self.net_dy, dy);
            let magnitude: u64 = if dx < 0 {
                (-(dx as i64)) as u64
            } else {
                dx as u64
            };
            self.abs_dx = self.abs_dx.saturating_add(magnitude);
        }
        self.samples_this_frame = self.samples_this_frame + 1;
    }
}

} // verus!
