use vstd::prelude::*;

verus! {

pub const AIM_HITS_TO_FINISH: u32 = 5;
pub const GRIDSHOT_DURATION_NS: u64 = 60_000_000_000;
pub const TRACKING_DURATION_NS: u64 = 30_000_000_000;
pub const FLICK_DEMAND_DURATION_NS: u64 = 60_000_000_000;
pub const ONE_WALL_SIX_DURATION_NS: u64 = 60_000_000_000;

/// Whether an aim run is in progress.
#[derive(Debug, Clone, Copy, PartialEq, Eq, Structural)]
pub enum AimPhase {
    Idle,
    Armed,
}

impl Default for AimPhase {
    fn default() -> (p: Self)
        ensures
            p == AimPhase::Idle,
    {
        AimPhase::Idle
    }
}

/// The aim tasks the lab can run.
#[derive(Debug, Clone, Copy, PartialEq, Eq, Structural)]
pub enum AimTaskKind {
    StaticClick,
    Gridshot,
    Tracking,
    FlickDemand,
    OneWallSix,
}

impl Default for AimTaskKind {
    fn default() -> (k: Self)
        ensures
            k == AimTaskKind::StaticClick,
    {
        AimTaskKind::StaticClick
    }
}

/// The run clock of an aim trial, on the QPC nanosecond time line: when the
/// run started, how much paused time has been accumulated, and whether (and
/// since when) it is paused now.
#[derive(Debug, Clone, Copy, PartialEq, Eq, Structural)]
pub struct AimClock {
    pub phase: AimPhase,
    pub start_timestamp_ns: u64,
    pub accumulated_pause_ns: u64,
    pub paused_at_qpc: Option<u64>,
}

impl Default for AimClock {
    fn default() -> (c: Self)
        ensures
            c.phase == AimPhase::Idle,
            c.start_timestamp_ns == 0,
            c.accumulated_pause_ns == 0,
            c.paused_at_qpc is None,
    {
        AimClock {
            phase: AimPhase::Idle,
            start_timestamp_ns: 0,
            accumulated_pause_ns: 0,
            paused_at_qpc: None,
        }
    }
}

pub open spec fn sat_sub(a: int, b: int) -> int {
    if a >= b {
        a - b
    } else {
        0
    }
}

pub open spec fn sat_add_u64(a: int, b: int) -> int {
    if a + b > u64::MAX {
        u64::MAX as int
    } else {
        a + b
    }
}

/// Active run time at `now_ns`: the wall span since start minus completed
/// pauses, frozen at the pause instant while paused; never below zero.
pub open spec fn active_elapsed(c: AimClock, now_ns: u64) -> int {
    let end = match c.paused_at_qpc {
        Some(at) => at,
        None => now_ns,
    };
    sat_sub(sat_sub(end as int, c.start_timestamp_ns as int), c.accumulated_pause_ns as int)
}

pub fn active_elapsed_ns(clock: &AimClock, now_ns: u64) -> (r: u64)
    ensures
        r == active_elapsed(*clock, now_ns),
{
    let end = match clock.paused_at_qpc {
        Some(at) => at,
        None => now_ns,
    };
    end.saturating_sub(clock.start_timestamp_ns).saturating_sub(clock.accumulated_pause_ns)
}

/// The clock after pausing at `now_ns`: only an armed, running clock pauses.
pub open spec fn paused_clock(c: AimClock, now_ns: u64) -> AimClock {
    if c.phase == AimPhase::Armed && c.paused_at_qpc is None {
        AimClock { paused_at_qpc: Some(now_ns), ..c }
    } else {
        c
    }
}

/// The clock after resuming at `now_ns`: the pause length joins the
/// accumulated pause time (saturating); a running clock is unchanged.
pub open spec fn resumed_clock(c: AimClock, now_ns: u64) -> AimClock {
    match c.paused_at_qpc {
        Some(at) => AimClock {
            paused_at_qpc: None,
            accumulated_pause_ns: sat_add_u64(
                c.accumulated_pause_ns as int,
                sat_sub(now_ns as int, at as int),
            ) as u64,
            ..c
        },
        None => c,
    }
}

/// Pause an armed, running trial at `now_ns`; otherwise nothing changes.
pub fn begin_aim_pause(clock: &mut AimClock, now_ns: u64)
    ensures
        *final(clock) == paused_clock(*old(clock), now_ns),
{
    if clock.phase != AimPhase::Armed || clock.paused_at_qpc.is_some() {
        return;
    }
    clock.paused_at_qpc = Some(now_ns);
}

/// Resume a paused trial at `now_ns`, adding the pause length to the
/// accumulated pause time; a clock that is not paused is left as it is.
pub fn end_aim_pause(clock: &mut AimClock, now_ns: u64)
    ensures
        *final(clock) == resumed_clock(*old(clock), now_ns),
{
    match clock.paused_at_qpc {
        Some(at) => {
            clock.accumulated_pause_ns = clock.accumulated_pause_ns.saturating_add(
                now_ns.saturating_sub(at),
            );
            clock.paused_at_qpc = None;
        },
        None => {},
    }
}

/// Arm a fresh run clock at `now_ns`.
pub fn arm_clock(clock: &mut AimClock, now_ns: u64)
    ensures
        *final(clock) == (AimClock {
            phase: AimPhase::Armed,
            start_timestamp_ns: now_ns,
            accumulated_pause_ns: 0,
            paused_at_qpc: None,
        }),
{
    clock.phase = AimPhase::Armed;
    clock.start_timestamp_ns = now_ns;
    clock.accumulated_pause_ns = 0;
    clock.paused_at_qpc = None;
}

/// A run may start only when no validation is running and no run is armed.
pub fn can_start_trial(validation_running: bool, clock: &AimClock) -> (b: bool)
    ensures
        b == (!validation_running && clock.phase != AimPhase::Armed),
{
    !validation_running && clock.phase != AimPhase::Armed
}

/// A timed task is over once its active time reaches `duration_ns`.
pub fn timed_task_should_end(clock: &AimClock, now_ns: u64, duration_ns: u64) -> (b: bool)
    ensures
        b == (active_elapsed(*clock, now_ns) >= duration_ns),
{
    active_elapsed_ns(clock, now_ns) >= duration_ns
}

/// TRACKING ends after thirty active seconds.
pub fn tracking_should_end(clock: &AimClock, now_ns: u64) -> (b: bool)
    ensures
        b == (active_elapsed(*clock, now_ns) >= 30_000_000_000),
{
    timed_task_should_end(clock, now_ns, TRACKING_DURATION_NS)
}

/// FLICK_DEMAND ends after sixty active seconds.
pub fn flick_demand_should_end(clock: &AimClock, now_ns: u64) -> (b: bool)
    ensures
        b == (active_elapsed(*clock, now_ns) >= 60_000_000_000),
{
    timed_task_should_end(clock, now_ns, FLICK_DEMAND_DURATION_NS)
}

/// ONE_WALL_SIX ends after sixty active seconds.
pub fn one_wall_six_should_end(clock: &AimClock, now_ns: u64) -> (b: bool)
    ensures
        b == (active_elapsed(*clock, now_ns) >= 60_000_000_000),
{
    timed_task_should_end(clock, now_ns, ONE_WALL_SIX_DURATION_NS)
}

/// GRIDSHOT ends after sixty active seconds.
pub fn gridshot_should_end(clock: &AimClock, now_ns: u64) -> (b: bool)
    ensures
        b == (active_elapsed(*clock, now_ns) >= 60_000_000_000),
{
    timed_task_should_end(clock, now_ns, GRIDSHOT_DURATION_NS)
}

/// Shots that did not hit, never below zero.
pub fn misses(shots: u32, hits: u32) -> (m: u32)
    ensures
        m == sat_sub(shots as int, hits as int),
{
    shots.saturating_sub(hits)
}

/// While a clock is paused, its active time does not move: every instant
/// after the pause began reads the same active time as the pause instant.
pub proof fn law_pause_freezes_clock(c: AimClock, t0: u64, later: u64)
    requires
        c.phase == AimPhase::Armed,
        c.paused_at_qpc is None,
    ensures
        active_elapsed(paused_clock(c, t0), later) == active_elapsed(c, t0),
{
}

/// Active time excludes pauses: pausing at `t0` and resuming at `t1` takes
/// exactly `t1 - t0` off the active time read at any later `now`, when the
/// counters do not saturate.
pub proof fn law_pause_excluded(c: AimClock, t0: u64, t1: u64, now: u64)
    requires
        c.phase == AimPhase::Armed,
        c.paused_at_qpc is None,
        c.start_timestamp_ns <= t0 <= t1 <= now,
        c.accumulated_pause_ns + (t1 - t0) <= now - c.start_timestamp_ns,
    ensures
        active_elapsed(resumed_clock(paused_clock(c, t0), t1), now) == (now - c.start_timestamp_ns)
            - c.accumulated_pause_ns - (t1 - t0),
{
}

/// Pausing and resuming never changes the phase or the start of a run.
pub proof fn law_pause_keeps_run(c: AimClock, t0: u64, t1: u64)
    ensures
        paused_clock(c, t0).phase == c.phase,
        paused_clock(c, t0).start_timestamp_ns == c.start_timestamp_ns,
        resumed_clock(c, t1).phase == c.phase,
        resumed_clock(c, t1).start_timestamp_ns == c.start_timestamp_ns,
{
}

} // verus!
