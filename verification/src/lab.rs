use vstd::prelude::*;

use crate::run::{pause_effect, resume_effect, AimRun};
use crate::tracking::TrackingState;
use crate::trial::{active_elapsed, paused_clock, resumed_clock, AimClock, AimPhase, AimTaskKind};

verus! {

/// Top-level screen of the lab shell.
#[derive(Debug, Clone, Copy, PartialEq, Eq, Structural)]
pub enum LabScreen {
    Lobby,
    Playing,
    Paused,
}

/// Panel shown over the current screen.
#[derive(Debug, Clone, Copy, PartialEq, Eq, Structural)]
pub enum LabNested {
    Closed,
    Settings,
    LabTools,
    PauseHome,
}

/// State of the lab shell that the key handling drives.
#[derive(Debug, Clone, Copy, PartialEq, Eq, Structural)]
pub struct LabUi {
    pub screen: LabScreen,
    pub nested: LabNested,
    pub selected_task: AimTaskKind,
    pub detail_overlay: bool,
}

impl Default for LabUi {
    fn default() -> (ui: Self)
        ensures
            ui.screen == LabScreen::Lobby,
            ui.nested == LabNested::Closed,
            ui.selected_task == AimTaskKind::StaticClick,
            !ui.detail_overlay,
    {
        LabUi {
            screen: LabScreen::Lobby,
            nested: LabNested::Closed,
            selected_task: AimTaskKind::StaticClick,
            detail_overlay: false,
        }
    }
}

/// The shell and clock after the V and Escape keys of one frame. V toggles
/// the detail overlay while playing. Escape pauses a playing trial (opening
/// the pause home panel) and resumes a paused one (closing any panel); it does
/// nothing in the lobby and never ends the trial.
pub open spec fn lab_keys_step(
    v_pressed: bool,
    escape_pressed: bool,
    ui: LabUi,
    clock: AimClock,
    now_ns: u64,
) -> (LabUi, AimClock) {
    let overlay = if v_pressed && ui.screen == LabScreen::Playing {
        !ui.detail_overlay
    } else {
        ui.detail_overlay
    };
    let ui1 = LabUi { detail_overlay: overlay, ..ui };
    if !escape_pressed {
        (ui1, clock)
    } else {
        match ui.screen {
            LabScreen::Lobby => (ui1, clock),
            LabScreen::Playing => (
                LabUi { screen: LabScreen::Paused, nested: LabNested::PauseHome, ..ui1 },
                paused_clock(clock, now_ns),
            ),
            LabScreen::Paused => (
                LabUi { screen: LabScreen::Playing, nested: LabNested::Closed, ..ui1 },
                resumed_clock(clock, now_ns),
            ),
        }
    }
}

/// Handle the V and Escape keys of one frame: the shell and the run clock
/// change as `lab_keys_step` says; pausing and resuming the run act as
/// `pause_effect` and `resume_effect` say; nothing else changes.
pub fn handle_lab_keys(
    v_pressed: bool,
    escape_pressed: bool,
    ui: &mut LabUi,
    run: &mut AimRun,
    tracking: &mut TrackingState,
    now_ns: u64,
)
    ensures
        (*final(ui), final(run).clock) == lab_keys_step(
            v_pressed,
            escape_pressed,
            *old(ui),
            old(run).clock,
            now_ns,
        ),
        escape_pressed && old(ui).screen == LabScreen::Playing ==> pause_effect(*old(run), now_ns, *final(run))
            && *final(tracking) == *old(tracking),
        escape_pressed && old(ui).screen == LabScreen::Paused ==> resume_effect(
            *old(run),
            *old(tracking),
            now_ns,
            *final(run),
            *final(tracking),
        ),
        !(escape_pressed && (old(ui).screen == LabScreen::Playing || old(ui).screen == LabScreen::Paused))
            ==> *final(run) == *old(run) && *final(tracking) == *old(tracking),
{
    if v_pressed && ui.screen == LabScreen::Playing {
        ui.detail_overlay = !ui.detail_overlay;
    }
    if !escape_pressed {
        return;
    }
    match ui.screen {
        LabScreen::Lobby => {},
        LabScreen::Playing => {
            run.pause(now_ns);
            ui.screen = LabScreen::Paused;
            ui.nested = LabNested::PauseHome;
        },
        LabScreen::Paused => {
            run.resume(tracking, now_ns);
            ui.nested = LabNested::Closed;
            ui.screen = LabScreen::Playing;
        },
    }
}

/// Mouse look is applied to the camera only while a trial is being played.
pub fn look_should_be_enabled(ui: &LabUi) -> (b: bool)
    ensures
        b == (ui.screen == LabScreen::Playing),
{
    ui.screen == LabScreen::Playing
}

/// Whether mouse look drives the camera. While it is off the cursor is free
/// for the menus; the lab starts with it off so the buttons are usable.
#[derive(Debug, Clone, Copy, PartialEq, Eq, Structural)]
pub struct LookCapture {
    pub enabled: bool,
}

impl Default for LookCapture {
    fn default() -> (s: Self)
        ensures
            !s.enabled,
    {
        LookCapture { enabled: false }
    }
}

impl LookCapture {
    /// Follow the lab screen once its keys were handled.
    pub fn follow_screen(&mut self, ui: &LabUi)
        ensures
            final(self).enabled == (ui.screen == LabScreen::Playing),
    {
        self.enabled = look_should_be_enabled(ui);
    }

    /// The cursor is locked and hidden only while look is on and the window
    /// has focus; otherwise it is free and visible.
    pub fn cursor_locked(self, window_focused: bool) -> (b: bool)
        ensures
            b == (self.enabled && window_focused),
    {
        self.enabled && window_focused
    }
}

/// Escape twice while playing an armed run returns to play with no panel
/// open, leaves the run armed with the same start, and the time spent in the
/// pause is excluded from the active time (when no counter saturates).
pub proof fn law_escape_round_trip(ui: LabUi, clock: AimClock, t0: u64, t1: u64, now: u64)
    requires
        ui.screen == LabScreen::Playing,
        clock.phase == AimPhase::Armed,
        clock.paused_at_qpc is None,
        clock.start_timestamp_ns <= t0 <= t1 <= now,
        clock.accumulated_pause_ns + (t1 - t0) <= now - clock.start_timestamp_ns,
    ensures
        ({
            let (ui1, c1) = lab_keys_step(false, true, ui, clock, t0);
            let (ui2, c2) = lab_keys_step(false, true, ui1, c1, t1);
            &&& ui1.screen == LabScreen::Paused
            &&& ui1.nested == LabNested::PauseHome
            &&& c1.phase == AimPhase::Armed
            &&& ui2.screen == LabScreen::Playing
            &&& ui2.nested == LabNested::Closed
            &&& c2.phase == AimPhase::Armed
            &&& c2.start_timestamp_ns == clock.start_timestamp_ns
            &&& c2.paused_at_qpc is None
            &&& active_elapsed(c2, now) == (now - clock.start_timestamp_ns)
                - clock.accumulated_pause_ns - (t1 - t0)
        }),
{
}

/// Escape in the lobby changes nothing.
pub proof fn law_escape_in_lobby_is_noop(ui: LabUi, clock: AimClock, now: u64)
    requires
        ui.screen == LabScreen::Lobby,
    ensures
        lab_keys_step(false, true, ui, clock, now) == (ui, clock),
{
}

} // verus!
