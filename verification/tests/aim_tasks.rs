use sense_maxer::flick::{flick_demand_yaw_set, next_commanded_yaw};
use sense_maxer::lab::{handle_lab_keys, look_should_be_enabled, LabNested, LabScreen, LabUi, LookCapture};
use sense_maxer::run::AimRun;
use sense_maxer::session::{InputSequencer, ValidationState};
use sense_maxer::task_config::{
    flick_demand_task_config_json, one_wall_six_task_config_json, static_click_task_config_json,
    tracking_task_config_json, TRACKING_TASK_VERSION,
};
use sense_maxer::tracking::{
    emit_rapid_fire, end_tracking_pause, left_button_down, on_target_dt_ns,
    sync_tracking_lmb_during_pause, sync_tracking_lmb_from_sample, tracking_tick_dt_ns,
    update_lmb_held, TrackingState, RI_MOUSE_LEFT_BUTTON_DOWN, RI_MOUSE_LEFT_BUTTON_UP,
    TRACKING_FIRE_INTERVAL_NS,
};
use sense_maxer::trial::{
    active_elapsed_ns, arm_clock, begin_aim_pause, end_aim_pause, flick_demand_should_end,
    misses, tracking_should_end, AimClock, AimPhase, AimTaskKind,
};

fn armed_clock(start: u64) -> AimClock {
    let mut c = AimClock::default();
    arm_clock(&mut c, start);
    c
}

#[test]
fn yaw_set_has_eight_absolute_offsets() {
    let set = flick_demand_yaw_set();
    assert_eq!(set.len(), 8);
    assert!(set.contains(&10));
    assert!(set.contains(&30));
    assert!(set.contains(&90));
    assert!(set.contains(&-10));
}

#[test]
fn next_yaw_avoids_immediate_repeat() {
    let set = flick_demand_yaw_set();
    let mut rng = 42u64;
    let mut prev = None;
    for _ in 0..40 {
        let y = next_commanded_yaw(&mut rng, prev);
        assert!(set.contains(&y));
        if let Some(p) = prev {
            assert_ne!(y, p);
        }
        prev = Some(y);
    }
}

#[test]
fn same_seed_same_yaw_sequence() {
    let mut a = 7u64;
    let mut b = 7u64;
    for _ in 0..20 {
        assert_eq!(next_commanded_yaw(&mut a, None), next_commanded_yaw(&mut b, None));
    }
}

#[test]
fn lmb_level_tracks_down_hold_and_up() {
    let mut held = false;
    update_lmb_held(&mut held, RI_MOUSE_LEFT_BUTTON_DOWN);
    assert!(held);
    update_lmb_held(&mut held, 0);
    assert!(held);
    update_lmb_held(&mut held, RI_MOUSE_LEFT_BUTTON_UP);
    assert!(!held);
}

#[test]
fn left_button_flag() {
    assert!(left_button_down(RI_MOUSE_LEFT_BUTTON_DOWN));
    assert!(!left_button_down(0));
}

#[test]
fn press_and_release_in_one_report_ends_released() {
    let mut held = false;
    update_lmb_held(&mut held, RI_MOUSE_LEFT_BUTTON_DOWN | RI_MOUSE_LEFT_BUTTON_UP);
    assert!(!held);
}

#[test]
fn aim_tracking_task_config_json_has_required_knobs() {
    assert_eq!(TRACKING_TASK_VERSION, "2");
    let j = tracking_task_config_json();
    assert!(j.contains("\"duration_secs\":30"));
    assert!(j.contains(&format!("\"radius\":{}", 0.25f32)));
    assert!(j.contains(&format!("\"y\":{}", 1.6f32)));
    assert!(j.contains(&format!("\"z\":{}", -6.0f32)));
    assert!(j.contains(&format!("\"x_min\":{}", -1.5f32)));
    assert!(j.contains(&format!("\"x_max\":{}", 1.5f32)));
    assert!(j.contains(&format!("\"speed\":{}", 1.2f32)));
    assert!(j.contains("\"reverse_delay_min_secs\":1.5"));
    assert!(j.contains("\"reverse_delay_max_secs\":3.5"));
    assert!(j.contains("\"scoring_rule\":\"hold_rapid_fire\""));
    assert!(j.contains("\"fire_rate_hz\":20"));
    assert!(j.contains("\"rng\":\"lcg\""));
    assert!(j.contains("\"rng_version\":\"1\""));
}

#[test]
fn task_configs_print_their_constants() {
    assert!(static_click_task_config_json().contains("\"hits_required\":5"));
    assert!(static_click_task_config_json().contains(&format!("\"floor_clearance\":{}", 0.35f32)));
    assert!(flick_demand_task_config_json().contains("\"yaw_set\":[-90,-60,-30,-10,10,30,60,90]"));
    let sep = 0.12f32 * 2.5;
    assert!(one_wall_six_task_config_json().contains(&format!("\"min_separation\":{}", sep)));
    assert!(one_wall_six_task_config_json().contains(&format!("\"radius\":{}", 0.12f32)));
}

#[test]
fn validation_starts_idle() {
    assert_eq!(ValidationState::default(), ValidationState::Idle);
    assert!(!ValidationState::Idle.is_running());
    assert!(ValidationState::Running.is_running());
}

#[test]
fn active_elapsed_excludes_pause_interval() {
    let mut clock = AimClock::default();
    clock.phase = AimPhase::Armed;
    clock.start_timestamp_ns = 1_000;
    assert_eq!(active_elapsed_ns(&clock, 1_000 + 10_000_000_000), 10_000_000_000);
    begin_aim_pause(&mut clock, 1_000 + 10_000_000_000);
    assert_eq!(active_elapsed_ns(&clock, 1_000 + 40_000_000_000), 10_000_000_000);
    end_aim_pause(&mut clock, 1_000 + 40_000_000_000);
    assert_eq!(active_elapsed_ns(&clock, 1_000 + 45_000_000_000), 15_000_000_000);
}

#[test]
fn idle_clock_does_not_pause() {
    let mut clock = AimClock::default();
    begin_aim_pause(&mut clock, 5);
    assert_eq!(clock.paused_at_qpc, None);
    end_aim_pause(&mut clock, 10);
    assert_eq!(clock.accumulated_pause_ns, 0);
}

#[test]
fn finishes_at_sixty_active_seconds() {
    let start = 1_000_000_000u64;
    let clock = armed_clock(start);
    assert!(!flick_demand_should_end(&clock, start + 59_999_999_999));
    assert!(flick_demand_should_end(&clock, start + 60_000_000_000));
}

#[test]
fn tracking_ends_after_thirty_active_seconds_even_with_pause() {
    let start = 4_000_000_000u64;
    let mut clock = armed_clock(start);
    assert!(!tracking_should_end(&clock, start + 29_999_999_999));
    begin_aim_pause(&mut clock, start + 10_000_000_000);
    end_aim_pause(&mut clock, start + 15_000_000_000);
    assert!(!tracking_should_end(&clock, start + 34_999_999_999));
    assert!(tracking_should_end(&clock, start + 35_000_000_000));
}

#[test]
fn misses_never_negative() {
    assert_eq!(misses(20, 10), 10);
    assert_eq!(misses(3, 5), 0);
}

#[test]
fn default_is_static_click_lobby() {
    let ui = LabUi::default();
    assert_eq!(ui.screen, LabScreen::Lobby);
    assert_eq!(ui.nested, LabNested::Closed);
    assert_eq!(ui.selected_task, AimTaskKind::StaticClick);
    assert!(!ui.detail_overlay);
    assert!(!look_should_be_enabled(&ui));
}

fn armed_lab_run() -> AimRun {
    let mut run = AimRun::new();
    assert!(run.start_aim_trial(false, 1_000, 1_700_000_000_000, 42));
    run
}

#[test]
fn escape_pauses_without_aborting_trial() {
    let mut ui = LabUi { screen: LabScreen::Playing, ..Default::default() };
    let mut run = armed_lab_run();
    let mut tracking = TrackingState::default();
    handle_lab_keys(false, true, &mut ui, &mut run, &mut tracking, 11_000);
    assert_eq!(ui.screen, LabScreen::Paused);
    assert_eq!(ui.nested, LabNested::PauseHome);
    assert_eq!(run.clock.phase, AimPhase::Armed);
    assert_eq!(run.clock.paused_at_qpc, Some(11_000));
    assert_eq!(run.random_seed, 42);
    assert_eq!(run.current_target_id, "target_001");
    assert!(!look_should_be_enabled(&ui));
}

#[test]
fn escape_resumes_from_nested_pause_and_accounts_time() {
    let mut ui = LabUi {
        screen: LabScreen::Paused,
        nested: LabNested::Settings,
        ..Default::default()
    };
    let mut run = armed_lab_run();
    run.clock.paused_at_qpc = Some(11_000);
    let mut tracking = TrackingState::default();
    handle_lab_keys(false, true, &mut ui, &mut run, &mut tracking, 31_000);
    assert_eq!(ui.screen, LabScreen::Playing);
    assert_eq!(ui.nested, LabNested::Closed);
    assert_eq!(run.clock.phase, AimPhase::Armed);
    assert_eq!(run.clock.paused_at_qpc, None);
    assert_eq!(run.clock.accumulated_pause_ns, 20_000);
    assert!(look_should_be_enabled(&ui));
}

#[test]
fn escape_in_lobby_is_noop() {
    let mut ui = LabUi::default();
    let mut run = armed_lab_run();
    let mut tracking = TrackingState::default();
    handle_lab_keys(false, true, &mut ui, &mut run, &mut tracking, 11_000);
    assert_eq!(ui.screen, LabScreen::Lobby);
    assert_eq!(ui.nested, LabNested::Closed);
    assert_eq!(run.clock.phase, AimPhase::Armed);
    assert_eq!(run.clock.paused_at_qpc, None);
}

#[test]
fn v_toggles_detail_only_while_playing() {
    let mut run = armed_lab_run();
    let mut tracking = TrackingState::default();
    let mut playing = LabUi { screen: LabScreen::Playing, ..Default::default() };
    handle_lab_keys(true, false, &mut playing, &mut run, &mut tracking, 2_000);
    assert!(playing.detail_overlay);
    let mut paused = LabUi { screen: LabScreen::Paused, ..Default::default() };
    handle_lab_keys(true, false, &mut paused, &mut run, &mut tracking, 2_000);
    assert!(!paused.detail_overlay);
}

#[test]
fn escape_round_trip_excludes_pause_from_active_time() {
    let mut ui = LabUi { screen: LabScreen::Playing, ..Default::default() };
    let mut run = armed_lab_run();
    let mut tracking = TrackingState::default();
    handle_lab_keys(false, true, &mut ui, &mut run, &mut tracking, 5_000);
    handle_lab_keys(false, true, &mut ui, &mut run, &mut tracking, 9_000);
    assert_eq!(ui.screen, LabScreen::Playing);
    assert_eq!(active_elapsed_ns(&run.clock, 20_000), 20_000 - 1_000 - 4_000);
    // A STATIC_CLICK target records no pause events.
    assert_eq!(run.events.len(), 1);
}

fn tracking_clock(start: u64) -> AimClock {
    armed_clock(start)
}

#[test]
fn rapid_fire_emits_20hz_shots_only_while_held() {
    let start = 1_000_000_000u64;
    let clock = tracking_clock(start);
    let mut st = TrackingState::default();
    sync_tracking_lmb_from_sample(&clock, AimTaskKind::Tracking, &mut st, RI_MOUSE_LEFT_BUTTON_DOWN);
    assert_eq!(emit_rapid_fire(&mut st, start + 1), vec![start + 1]);
    assert_eq!(
        emit_rapid_fire(&mut st, start + 1 + TRACKING_FIRE_INTERVAL_NS),
        vec![start + 1 + TRACKING_FIRE_INTERVAL_NS]
    );
    assert_eq!(emit_rapid_fire(&mut st, start + 1 + 2 * TRACKING_FIRE_INTERVAL_NS).len(), 1);
    sync_tracking_lmb_from_sample(&clock, AimTaskKind::Tracking, &mut st, RI_MOUSE_LEFT_BUTTON_UP);
    assert!(emit_rapid_fire(&mut st, start + 200_000_000).is_empty());
    assert_eq!(st.next_tracking_shot_ns, None);
    sync_tracking_lmb_from_sample(&clock, AimTaskKind::Tracking, &mut st, RI_MOUSE_LEFT_BUTTON_DOWN);
    assert_eq!(emit_rapid_fire(&mut st, start + 200_000_001), vec![start + 200_000_001]);
}

#[test]
fn rapid_fire_catch_up_is_capped_at_forty() {
    let mut st = TrackingState { lmb_held: true, next_tracking_shot_ns: Some(0), ..Default::default() };
    let shots = emit_rapid_fire(&mut st, 10_000_000_000);
    assert_eq!(shots.len(), 40);
    assert_eq!(shots[39], 39 * TRACKING_FIRE_INTERVAL_NS);
    assert_eq!(st.next_tracking_shot_ns, Some(40 * TRACKING_FIRE_INTERVAL_NS));
}

#[test]
fn pause_freezes_rapid_fire_schedule() {
    let start = 6_000_000_000u64;
    let mut clock = tracking_clock(start);
    let mut st = TrackingState::default();
    sync_tracking_lmb_from_sample(&clock, AimTaskKind::Tracking, &mut st, RI_MOUSE_LEFT_BUTTON_DOWN);
    assert_eq!(emit_rapid_fire(&mut st, start + 1).len(), 1);
    let next = st.next_tracking_shot_ns.expect("schedule after first shot");
    begin_aim_pause(&mut clock, start + 10_000_000);
    end_tracking_pause(&mut clock, &mut st, start + 5_010_000_000);
    assert_eq!(st.next_tracking_shot_ns, Some(next + 5_000_000_000));
    assert!(emit_rapid_fire(&mut st, start + 5_010_000_001).is_empty());
    assert_eq!(emit_rapid_fire(&mut st, next + 5_000_000_000).len(), 1);
}

#[test]
fn tracking_pause_syncs_lmb_release_without_scoring() {
    let start = 5_000_000_000u64;
    let mut clock = tracking_clock(start);
    let mut st = TrackingState { lmb_held: true, ..Default::default() };
    assert!(!sync_tracking_lmb_during_pause(&clock, AimTaskKind::Tracking, &mut st, RI_MOUSE_LEFT_BUTTON_UP));
    assert!(st.lmb_held);
    begin_aim_pause(&mut clock, start + 100);
    assert!(sync_tracking_lmb_during_pause(&clock, AimTaskKind::Tracking, &mut st, RI_MOUSE_LEFT_BUTTON_UP));
    assert!(!st.lmb_held);
    assert!(!sync_tracking_lmb_during_pause(&clock, AimTaskKind::Gridshot, &mut st, RI_MOUSE_LEFT_BUTTON_DOWN));
}

#[test]
fn on_target_dt_ns_zero_when_not_held() {
    // The crosshair ray hits the target, but the button is up.
    assert_eq!(on_target_dt_ns(false, true, 16_666_666), 0);
}

#[test]
fn on_target_dt_ns_zero_when_held_but_miss() {
    assert_eq!(on_target_dt_ns(true, false, 16_666_666), 0);
}

#[test]
fn on_target_dt_ns_returns_dt_when_held_and_hit() {
    let dt = 16_666_666u64;
    assert_eq!(on_target_dt_ns(true, true, dt), dt);
}

#[test]
fn tick_dt_stops_at_thirty_active_seconds() {
    let start = 1_000u64;
    let clock = tracking_clock(start);
    assert_eq!(tracking_tick_dt_ns(&clock, start, start + 10), 10);
    assert_eq!(tracking_tick_dt_ns(&clock, start + 29_999_999_000, start + 31_000_000_000), 1_000);
}

#[test]
fn end_pause_shifts_reverse_schedule() {
    let start = 2_000_000_000u64;
    let mut clock = tracking_clock(start);
    let mut st = TrackingState { next_reverse_at_ns: Some(start + 3_000_000_000), last_tracking_tick_ns: Some(start + 50), ..Default::default() };
    begin_aim_pause(&mut clock, start + 100);
    end_tracking_pause(&mut clock, &mut st, start + 5_000_000_100);
    assert_eq!(st.next_reverse_at_ns, Some(start + 8_000_000_000));
    assert_eq!(st.last_tracking_tick_ns, Some(start + 5_000_000_050));
    assert_eq!(clock.accumulated_pause_ns, 5_000_000_000);
}

#[test]
fn push_input_sample_raw_dt_and_seq() {
    let mut seq = InputSequencer::default();
    assert_eq!(seq.next_input_dt_ns(1_000_000_000), 0);
    assert_eq!(seq.advance(1_000_000_000), (0, 0));
    assert_eq!(seq.next_input_dt_ns(1_000_100_000), 100_000);
    assert_eq!(seq.advance(1_000_100_000), (1, 100_000));
    assert_eq!(seq.advance(999), (2, 0));
    seq.clear();
    assert_eq!(seq.advance(5), (0, 0));
}

#[test]
fn look_starts_free_and_follows_playing_screen() {
    let mut look = LookCapture::default();
    assert!(!look.enabled);
    assert!(!look.cursor_locked(true));
    let mut ui = LabUi::default();
    ui.screen = LabScreen::Playing;
    look.follow_screen(&ui);
    assert!(look.enabled);
    assert!(look.cursor_locked(true));
    assert!(!look.cursor_locked(false));
    ui.screen = LabScreen::Paused;
    look.follow_screen(&ui);
    assert!(!look.enabled);
}
