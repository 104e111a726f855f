use vstd::prelude::*;

use crate::trial::{
    active_elapsed, active_elapsed_ns, end_aim_pause, resumed_clock, sat_add_u64, sat_sub, AimClock,
    AimPhase, AimTaskKind,
};

verus! {

/// Raw input `ulButtons` bit: left button went down in this report.
pub const RI_MOUSE_LEFT_BUTTON_DOWN: u32 = 0x0001;

/// Raw input `ulButtons` bit: left button went up in this report.
pub const RI_MOUSE_LEFT_BUTTON_UP: u32 = 0x0002;

/// Spacing of the virtual shots fired while the button is held (20 Hz).
pub const TRACKING_FIRE_INTERVAL_NS: u64 = 50_000_000;

/// Most virtual shots one frame may catch up on after a hitch (two seconds).
pub const TRACKING_MAX_CATCH_UP: u64 = 40;

pub fn left_button_down(buttons: u32) -> (b: bool)
    ensures
        b == (buttons & RI_MOUSE_LEFT_BUTTON_DOWN != 0),
{
    buttons & RI_MOUSE_LEFT_BUTTON_DOWN != 0
}

/// The held level after one report: a down transition holds, an up
/// transition releases (the later of the two when both are reported), and a
/// report without either keeps the level.
pub open spec fn lmb_level_after(held: bool, buttons: u32) -> bool {
    if buttons & RI_MOUSE_LEFT_BUTTON_UP != 0 {
        false
    } else if buttons & RI_MOUSE_LEFT_BUTTON_DOWN != 0 {
        true
    } else {
        held
    }
}

pub fn update_lmb_held(held: &mut bool, buttons: u32)
    ensures
        *final(held) == lmb_level_after(*old(held), buttons),
{
    if buttons & RI_MOUSE_LEFT_BUTTON_DOWN != 0 {
        *held = true;
    }
    if buttons & RI_MOUSE_LEFT_BUTTON_UP != 0 {
        *held = false;
    }
}

/// Integer state of a TRACKING run: button level, scored on-target time and
/// the three schedules that live on the QPC time line.
#[derive(Debug, Clone, Copy, PartialEq, Eq, Structural)]
pub struct TrackingState {
    pub lmb_held: bool,
    pub time_on_target_ns: u64,
    pub next_reverse_at_ns: Option<u64>,
    pub last_tracking_tick_ns: Option<u64>,
    pub next_tracking_shot_ns: Option<u64>,
}

impl Default for TrackingState {
    fn default() -> (t: Self)
        ensures
            !t.lmb_held,
            t.time_on_target_ns == 0,
            t.next_reverse_at_ns is None,
            t.last_tracking_tick_ns is None,
            t.next_tracking_shot_ns is None,
    {
        TrackingState {
            lmb_held: false,
            time_on_target_ns: 0,
            next_reverse_at_ns: None,
            last_tracking_tick_ns: None,
            next_tracking_shot_ns: None,
        }
    }
}

pub open spec fn is_tracking_run(clock: AimClock, task: AimTaskKind) -> bool {
    clock.phase == AimPhase::Armed && task == AimTaskKind::Tracking
}

/// While an armed TRACKING run is paused the input drain still follows the
/// button level (and reports that it did); otherwise nothing changes.
pub fn sync_tracking_lmb_during_pause(
    clock: &AimClock,
    task: AimTaskKind,
    state: &mut TrackingState,
    buttons: u32,
) -> (synced: bool)
    ensures
        synced == (is_tracking_run(*clock, task) && clock.paused_at_qpc is Some),
        *final(state) == if synced {
            TrackingState { lmb_held: lmb_level_after(old(state).lmb_held, buttons), ..*old(state) }
        } else {
            *old(state)
        },
{
    if clock.phase == AimPhase::Armed && task == AimTaskKind::Tracking
        && clock.paused_at_qpc.is_some() {
        update_lmb_held(&mut state.lmb_held, buttons);
        true
    } else {
        false
    }
}

/// A sample of an armed TRACKING run updates the button level.
pub fn sync_tracking_lmb_from_sample(
    clock: &AimClock,
    task: AimTaskKind,
    state: &mut TrackingState,
    buttons: u32,
)
    ensures
        *final(state) == if is_tracking_run(*clock, task) {
            TrackingState { lmb_held: lmb_level_after(old(state).lmb_held, buttons), ..*old(state) }
        } else {
            *old(state)
        },
{
    if clock.phase != AimPhase::Armed || task != AimTaskKind::Tracking {
        return;
    }
    update_lmb_held(&mut state.lmb_held, buttons);
}

/// On-target time earned by one frame of `dt_ns`: all of it when the button
/// is held and the look ray hits the target, none otherwise.
pub fn on_target_dt_ns(lmb_held: bool, hit: bool, dt_ns: u64) -> (r: u64)
    ensures
        r == if lmb_held && hit {
            dt_ns
        } else {
            0
        },
{
    if !lmb_held {
        return 0;
    }
    if hit {
        dt_ns
    } else {
        0
    }
}

/// Frame time to simulate between the previous tick and `now_ns`, cut so the
/// run never simulates past its thirty active seconds.
pub open spec fn tick_dt(clock: AimClock, previous_tick_ns: u64, now_ns: u64) -> int {
    let raw = sat_sub(now_ns as int, previous_tick_ns as int);
    let left = sat_sub(30_000_000_000, active_elapsed(clock, previous_tick_ns));
    if raw <= left {
        raw
    } else {
        left
    }
}

pub fn tracking_tick_dt_ns(clock: &AimClock, previous_tick_ns: u64, now_ns: u64) -> (dt: u64)
    ensures
        dt == tick_dt(*clock, previous_tick_ns, now_ns),
{
    let raw_dt_ns = now_ns.saturating_sub(previous_tick_ns);
    let previous_active_ns = active_elapsed_ns(clock, previous_tick_ns);
    let left = 30_000_000_000u64.saturating_sub(previous_active_ns);
    if raw_dt_ns <= left {
        raw_dt_ns
    } else {
        left
    }
}

/// Whether the scheduled direction reversal is due at `now_ns`.
pub fn reverse_due(state: &TrackingState, now_ns: u64) -> (b: bool)
    ensures
        b == match state.next_reverse_at_ns {
            Some(at) => now_ns >= at,
            None => false,
        },
{
    match state.next_reverse_at_ns {
        Some(at) => now_ns >= at,
        None => false,
    }
}

/// The virtual shot times due from `next` up to `now_ns`, at the fire
/// interval, at most `budget` of them.
pub open spec fn fire_times(next: u64, now_ns: u64, budget: nat) -> Seq<u64>
    decreases budget,
{
    if budget == 0 || next > now_ns {
        Seq::empty()
    } else {
        seq![next] + fire_times(
            sat_add_u64(next as int, TRACKING_FIRE_INTERVAL_NS as int) as u64,
            now_ns,
            (budget - 1) as nat,
        )
    }
}

/// The next shot time once the due shots have been fired.
pub open spec fn fire_next(next: u64, now_ns: u64, budget: nat) -> u64
    decreases budget,
{
    if budget == 0 || next > now_ns {
        next
    } else {
        fire_next(
            sat_add_u64(next as int, TRACKING_FIRE_INTERVAL_NS as int) as u64,
            now_ns,
            (budget - 1) as nat,
        )
    }
}

/// Hold-to-fire at 20 Hz: while the button is held, fire every shot due by
/// `now_ns` on the fire grid that starts at the first held frame (at most 40
/// per frame), and keep the grid for the next frame; releasing the button
/// drops the grid. Returns the times of the shots fired.
pub fn emit_rapid_fire(state: &mut TrackingState, now_ns: u64) -> (shots: Vec<u64>)
    ensures
        final(state).lmb_held == old(state).lmb_held,
        final(state).time_on_target_ns == old(state).time_on_target_ns,
        final(state).next_reverse_at_ns == old(state).next_reverse_at_ns,
        final(state).last_tracking_tick_ns == old(state).last_tracking_tick_ns,
        !old(state).lmb_held ==> shots@ == Seq::<u64>::empty()
            && final(state).next_tracking_shot_ns is None,
        old(state).lmb_held ==> ({
            let start = match old(state).next_tracking_shot_ns {
                Some(n) => n,
                None => now_ns,
            };
            &&& shots@ == fire_times(start, now_ns, 40)
            &&& final(state).next_tracking_shot_ns == Some(fire_next(start, now_ns, 40))
        }),
{
    if !state.lmb_held {
        state.next_tracking_shot_ns = None;
        return Vec::new();
    }
    let start = match state.next_tracking_shot_ns {
        Some(n) => n,
        None => now_ns,
    };
    let mut next = start;
    let mut fired: u64 = 0;
    let mut shots: Vec<u64> = Vec::new();
    while next <= now_ns && fired < TRACKING_MAX_CATCH_UP
        invariant
            fired <= 40,
            shots@ + fire_times(next, now_ns, (40 - fired) as nat) == fire_times(start, now_ns, 40),
            fire_next(next, now_ns, (40 - fired) as nat) == fire_next(start, now_ns, 40),
        decreases 40 - fired,
    {
        let ghost before = shots@;
        shots.push(next);
        proof {
            let b = (40 - fired) as nat;
            let n2 = sat_add_u64(next as int, TRACKING_FIRE_INTERVAL_NS as int) as u64;
            let rest = fire_times(n2, now_ns, (b - 1) as nat);
            assert(fire_times(next, now_ns, b) == seq![next] + rest);
            assert(shots@ + rest =~= before + (seq![next] + rest));
        }
        next = next.saturating_add(TRACKING_FIRE_INTERVAL_NS);
        fired = fired + 1;
    }
    state.next_tracking_shot_ns = Some(next);
    shots
}

/// Schedule the next direction reversal `delay_ns` after `now_ns`
/// (saturating).
pub fn schedule_reverse(state: &mut TrackingState, now_ns: u64, delay_ns: u64)
    ensures
        *final(state) == (TrackingState {
            next_reverse_at_ns: Some(sat_add_u64(now_ns as int, delay_ns as int) as u64),
            ..*old(state)
        }),
{
    state.next_reverse_at_ns = Some(now_ns.saturating_add(delay_ns));
}

/// A schedule time moved later by `d` nanoseconds (saturating).
pub open spec fn shifted(o: Option<u64>, d: u64) -> Option<u64> {
    match o {
        Some(t) => Some(sat_add_u64(t as int, d as int) as u64),
        None => None,
    }
}

/// Move every TRACKING schedule later by the length of a pause, so that
/// motion, reversals and the fire grid resume where they were frozen.
pub fn shift_tracking_schedules(state: &mut TrackingState, pause_ns: u64)
    ensures
        *final(state) == (TrackingState {
            next_reverse_at_ns: shifted(old(state).next_reverse_at_ns, pause_ns),
            last_tracking_tick_ns: shifted(old(state).last_tracking_tick_ns, pause_ns),
            next_tracking_shot_ns: shifted(old(state).next_tracking_shot_ns, pause_ns),
            ..*old(state)
        }),
{
    state.next_reverse_at_ns = match state.next_reverse_at_ns {
        Some(t) => Some(t.saturating_add(pause_ns)),
        None => None,
    };
    state.last_tracking_tick_ns = match state.last_tracking_tick_ns {
        Some(t) => Some(t.saturating_add(pause_ns)),
        None => None,
    };
    state.next_tracking_shot_ns = match state.next_tracking_shot_ns {
        Some(t) => Some(t.saturating_add(pause_ns)),
        None => None,
    };
}

/// Resume a paused TRACKING run at `now_ns`: the clock resumes and the
/// schedules move later by the pause length. A running clock and its
/// schedules are left as they are.
pub fn end_tracking_pause(clock: &mut AimClock, state: &mut TrackingState, now_ns: u64)
    ensures
        *final(clock) == resumed_clock(*old(clock), now_ns),
        *final(state) == match old(clock).paused_at_qpc {
            Some(at) => TrackingState {
                next_reverse_at_ns: shifted(
                    old(state).next_reverse_at_ns,
                    sat_sub(now_ns as int, at as int) as u64,
                ),
                last_tracking_tick_ns: shifted(
                    old(state).last_tracking_tick_ns,
                    sat_sub(now_ns as int, at as int) as u64,
                ),
                next_tracking_shot_ns: shifted(
                    old(state).next_tracking_shot_ns,
                    sat_sub(now_ns as int, at as int) as u64,
                ),
                ..*old(state)
            },
            None => *old(state),
        },
{
    match clock.paused_at_qpc {
        Some(at) => {
            let pause_ns = now_ns.saturating_sub(at);
            end_aim_pause(clock, now_ns);
            shift_tracking_schedules(state, pause_ns);
        },
        None => {},
    }
}

/// The shots fired in one frame are at most the catch-up budget, none is
/// later than the frame, and while the grid does not saturate they sit
/// exactly one fire interval apart starting at the grid's next time.
pub proof fn law_rapid_fire_grid(next: u64, now_ns: u64, budget: nat)
    ensures
        fire_times(next, now_ns, budget).len() <= budget,
        forall|k: int|
            0 <= k < fire_times(next, now_ns, budget).len() ==> #[trigger] fire_times(
                next,
                now_ns,
                budget,
            )[k] <= now_ns,
        forall|k: int|
            0 <= k < fire_times(next, now_ns, budget).len() && next + k * 50_000_000 <= u64::MAX
                ==> #[trigger] fire_times(next, now_ns, budget)[k] == next + k * 50_000_000,
    decreases budget,
{
    if budget > 0 && next <= now_ns {
        let n2 = sat_add_u64(next as int, TRACKING_FIRE_INTERVAL_NS as int) as u64;
        law_rapid_fire_grid(n2, now_ns, (budget - 1) as nat);
        let rest = fire_times(n2, now_ns, (budget - 1) as nat);
        let all = fire_times(next, now_ns, budget);
        assert(all == seq![next] + rest);
        assert forall|k: int|
            0 <= k < all.len() && next + k * 50_000_000 <= u64::MAX implies #[trigger] all[k] == next
            + k * 50_000_000 by {
            if k > 0 {
                assert(all[k] == rest[k - 1]);
                assert(n2 == next + 50_000_000);
                assert(n2 + (k - 1) * 50_000_000 == next + k * 50_000_000);
            }
        }
        assert forall|k: int| 0 <= k < all.len() implies #[trigger] all[k] <= now_ns by {
            if k > 0 {
                assert(all[k] == rest[k - 1]);
            }
        }
    }
}

} // verus!
