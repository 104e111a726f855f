use sense_maxer::analysis::{
    check_analyzable, check_camera_timestamps, normalize_flags, shot_quality_flags, trial_quality_flags, AnalysisError,
    ANALYSIS_VERSION,
};
use sense_maxer::flick::flick_demand_yaw_set;
use sense_maxer::replay::TargetEventKind;
use sense_maxer::run::{
    build_record_core, persist_outcome, AimRun, TrackingTick, TrackingTickResult, AIM_EXPERIMENT_ID,
    AIM_EXPERIMENT_VERSION,
};
use sense_maxer::segment::{MovementCandidate, QualityFlag};
use sense_maxer::tracking::{
    reverse_due, schedule_reverse, sync_tracking_lmb_from_sample, TrackingState,
    RI_MOUSE_LEFT_BUTTON_DOWN, RI_MOUSE_LEFT_BUTTON_UP, TRACKING_FIRE_INTERVAL_NS,
};
use sense_maxer::trial::{
    flick_demand_should_end, one_wall_six_should_end, tracking_should_end, AimPhase,
    AimTaskKind, AIM_HITS_TO_FINISH,
};

fn static_run(now: u64, seed: u64) -> AimRun {
    let mut run = AimRun::new();
    assert!(run.start_aim_trial(false, now, 1_700_000_000_000, seed));
    run
}

fn kinds(run: &AimRun) -> Vec<(TargetEventKind, String)> {
    run.events.iter().map(|e| (e.kind, e.target_id.clone())).collect()
}

#[test]
fn miss_keeps_center_hit_advances() {
    let now = 1_000_000_000u64;
    let mut run = static_run(now, 42);
    let first = run.current_target_id.clone();

    // Miss
    assert!(!run.apply_aim_shot(false, now + 1));
    assert_eq!(run.hits, 0);
    assert_eq!(run.current_target_id, first);
    assert_eq!(run.clock.phase, AimPhase::Armed);

    // Hit
    assert!(!run.apply_aim_shot(true, now + 2));
    assert_eq!(run.hits, 1);
    assert_eq!(run.clock.phase, AimPhase::Armed);
    assert_ne!(run.current_target_id, first);
}

#[test]
fn shots_buffer_on_hit_and_miss() {
    let now = 1_000_000_000u64;
    let mut run = static_run(now, 42);

    assert!(!run.apply_aim_shot(false, now + 1));
    assert_eq!(run.shots.len(), 1);
    assert!(!run.shots[0].hit);
    assert_eq!(run.hits, 0);

    assert!(!run.apply_aim_shot(true, now + 2));
    assert_eq!(run.shots.len(), 2);
    assert!(run.shots[1].hit);
    assert_eq!(run.shots[1].shot_index, 1);
    assert_eq!(run.hits, 1);
}

#[test]
fn fifth_hit_sets_score_and_shot_count() {
    let start = 5_000_000_000u64;
    let mut run = static_run(start, 42);
    for i in 0..AIM_HITS_TO_FINISH {
        let done = run.apply_aim_shot(true, start + (i as u64 + 1) * 100_000_000);
        if i + 1 < AIM_HITS_TO_FINISH {
            assert!(!done);
            assert_eq!(run.clock.phase, AimPhase::Armed);
        } else {
            assert!(done);
            assert_eq!(run.clock.phase, AimPhase::Idle);
            assert_eq!(run.hits, 5);
            assert_eq!(run.score_ns, Some(500_000_000));
            assert_eq!(run.shots.len(), AIM_HITS_TO_FINISH as usize);
            assert_eq!(run.shots.len() as u32, run.hits);
        }
    }
    // A finished run ignores further clicks.
    assert!(!run.apply_aim_shot(true, start + 900_000_000));
    assert_eq!(run.shots.len(), 5);
}

#[test]
fn paused_time_is_not_scored() {
    let start = 1_000u64;
    let mut run = static_run(start, 1);
    run.pause(2_000);
    let mut tracking = TrackingState::default();
    run.resume(&mut tracking, 10_000);
    for i in 0..5u64 {
        run.apply_aim_shot(true, 20_000 + i);
    }
    assert_eq!(run.score_ns, Some(20_004 - 1_000 - 8_000));
}

#[test]
fn cancel_armed_clears_run_without_persist_ok() {
    let now = 1_000_000_000u64;
    let mut run = static_run(now, 42);
    assert!(!run.apply_aim_shot(false, now + 1));
    assert_eq!(run.shots.len(), 1);

    run.cancel_aim_trial();
    assert_eq!(run.clock.phase, AimPhase::Idle);
    assert!(run.score_ns.is_none());
    assert!(run.shots.is_empty());
    assert!(run.events.is_empty());
    assert_eq!(run.hits, 0);
    assert_eq!(run.next_target_ordinal, 1);
    assert!(run.current_target_id.is_empty());
}

#[test]
fn cancel_when_idle_only_marks_idle() {
    let start = 5_000_000_000u64;
    let mut run = static_run(start, 42);
    for i in 0..5u64 {
        run.apply_aim_shot(true, start + i + 1);
    }
    let score = run.score_ns;
    run.cancel_aim_trial();
    assert_eq!(run.score_ns, score);
    assert_eq!(run.shots.len(), 5);
}

#[test]
fn start_is_refused_while_validating_or_armed() {
    let mut run = AimRun::new();
    assert!(!run.start_aim_trial(true, 10, 0, 1));
    assert_eq!(run.clock.phase, AimPhase::Idle);
    assert!(run.events.is_empty());
    assert!(run.start_aim_trial(false, 10, 0, 1));
    assert!(!run.start_flick_demand_trial(false, 20, 0, 2));
    assert_eq!(run.task_kind, AimTaskKind::StaticClick);
    assert_eq!(run.clock.start_timestamp_ns, 10);
}

#[test]
fn spawn_and_despawn_events_without_miss_lifecycle() {
    let now = 1_000_000_000u64;
    let mut run = static_run(now, 7);
    assert_eq!(run.events.len(), 1);
    assert_eq!(run.events[0].kind, TargetEventKind::Spawn);
    assert_eq!(run.events[0].target_id, "target_001");
    assert_eq!(run.current_target_id, "target_001");

    assert!(!run.apply_aim_shot(false, now + 1));
    assert_eq!(run.events.len(), 1, "miss must not emit target lifecycle events");

    assert!(!run.apply_aim_shot(true, now + 2));
    assert_eq!(run.events.len(), 3);
    assert_eq!(run.events[1].kind, TargetEventKind::Despawn);
    assert_eq!(run.events[1].target_id, "target_001");
    assert_eq!(run.events[2].kind, TargetEventKind::Spawn);
    assert_eq!(run.events[2].target_id, "target_002");
    assert_eq!(run.events[2].event_index, 2);
    assert_eq!(run.current_target_id, "target_002");
}

#[test]
fn shots_carry_target_id() {
    let now = 1_000_000_000u64;
    let mut run = static_run(now, 99);

    assert!(!run.apply_aim_shot(false, now + 1));
    assert_eq!(run.shots[0].target_id, "target_001");

    assert!(!run.apply_aim_shot(true, now + 2));
    assert_eq!(run.shots[1].target_id, "target_001");
    assert_eq!(run.current_target_id, "target_002");

    assert!(!run.apply_aim_shot(false, now + 3));
    assert_eq!(run.shots[2].target_id, "target_002");
}

#[test]
fn persist_status_ok_and_err_shapes() {
    let now = 1_000u64;
    let mut run = static_run(now, 1);
    run.apply_aim_shot(false, now + 1);
    for i in 0..5u64 {
        run.apply_aim_shot(true, now + 2 + i);
    }
    assert_eq!(run.hits, 5);
    assert_eq!(run.shots.len(), 6);

    let ok = persist_outcome(&run, Ok("aim_20260918_000001".into()));
    assert!(ok.saved_ok);
    assert_eq!(ok.trial_id.as_deref(), Some("aim_20260918_000001"));
    assert!(ok.error.is_none());
    assert_eq!(ok.hits, 5);
    assert_eq!(ok.shots, 6);

    let err = persist_outcome(&run, Err("disk full".into()));
    assert!(!err.saved_ok);
    assert!(err.trial_id.is_none());
    assert_eq!(err.error.as_deref(), Some("disk full"));
    assert_eq!(err.hits, 5);
    assert_eq!(err.shots, 6);
}

#[test]
fn build_record_snapshots_task_and_processor() {
    let start_ns = 5_000_000_000u64;
    let end_ns = start_ns + 600_000_000;
    let mut run = static_run(start_ns, 42);
    for i in 0..AIM_HITS_TO_FINISH {
        run.apply_aim_shot(true, start_ns + (i as u64 + 1) * 100_000_000);
    }
    let record = build_record_core(&run, 1_700_000_000_600, end_ns);
    assert_eq!(record.trial_type, "STATIC_CLICK");
    assert_eq!(record.experiment_version, AIM_EXPERIMENT_VERSION);
    assert_eq!(record.experiment_version, "0.9.0");
    assert_eq!(record.experiment_id, AIM_EXPERIMENT_ID);
    assert_eq!(record.app_version, "0.1.0");
    assert_eq!(record.status, "completed");
    assert_eq!(record.metrics_json, "{}");
    assert!(record.task_config_json.contains("\"hits_required\":5"));
    assert!(record.task_config_json.contains("\"rng\":\"lcg\""));
    assert!(record.task_config_json.contains("\"rng_version\":\"1\""));
    assert_eq!(record.random_seed, 42);
    assert_eq!(record.task_version, "1");
    assert_eq!(record.hits, 5);
    assert_eq!(record.shots, 5);
    assert_eq!(record.misses, 0);
    assert_eq!(record.score_ns, 500_000_000);
    assert_eq!(record.duration_ns, 600_000_000);
    assert_eq!(record.start_unix_ms, 1_700_000_000_000);
    assert_eq!(record.end_unix_ms, 1_700_000_000_600);
    assert_eq!(record.start_timestamp_ns, start_ns);
    assert_eq!(record.end_timestamp_ns, end_ns);
}

#[test]
fn record_without_score_uses_the_duration() {
    let mut run = static_run(100, 1);
    run.cancel_aim_trial();
    let record = build_record_core(&run, 0, 50);
    assert_eq!(record.duration_ns, 0);
    assert_eq!(record.score_ns, 0);
}

// ------------------------------------------------------------ FLICK_DEMAND

#[test]
fn finishes_at_sixty_active_seconds_with_record() {
    let start = 1_000_000_000u64;
    let mut run = AimRun::new();
    assert!(run.start_flick_demand_trial(false, start, 1, 9));
    assert!(!flick_demand_should_end(&run.clock, start + 59_999_999_999));
    assert!(flick_demand_should_end(&run.clock, start + 60_000_000_000));
    assert!(run.finish_flick_demand_trial(start + 60_000_000_000));
    assert_eq!(run.clock.phase, AimPhase::Idle);
    assert_eq!(run.score_ns, Some(60_000_000_000));
    let record = build_record_core(&run, 2, start + 60_000_000_000);
    assert_eq!(record.trial_type, "FLICK_DEMAND");
    assert_eq!(record.task_version, "1");
    let _ = persist_outcome(&run, Ok("x".into()));
    // Only once.
    assert!(!run.finish_flick_demand_trial(start + 61_000_000_000));
}

#[test]
fn flick_targets_never_repeat_their_offset() {
    let mut run = AimRun::new();
    assert!(run.start_flick_demand_trial(false, 10, 0, 42));
    let set = flick_demand_yaw_set();
    let mut prev = run.events[0].commanded_yaw_deg.expect("spawn carries its offset");
    for i in 0..40u64 {
        assert!(!run.apply_flick_demand_shot(true, 100 + i));
        let spawn = run.events.last().unwrap();
        assert_eq!(spawn.kind, TargetEventKind::Spawn);
        let y = spawn.commanded_yaw_deg.unwrap();
        assert!(set.contains(&y));
        assert_ne!(y, prev);
        prev = y;
    }
    assert_eq!(run.hits, 40);
    assert_eq!(run.events.len(), 1 + 2 * 40);
}

#[test]
fn flick_ignores_clicks_while_paused() {
    let mut run = AimRun::new();
    assert!(run.start_flick_demand_trial(false, 10, 0, 3));
    run.pause(20);
    assert!(!run.apply_flick_demand_shot(true, 30));
    assert!(run.shots.is_empty());
    assert_eq!(run.hits, 0);
}

#[test]
fn same_seed_same_flick_offsets() {
    let mut a = AimRun::new();
    let mut b = AimRun::new();
    assert!(a.start_flick_demand_trial(false, 1, 0, 7));
    assert!(b.start_flick_demand_trial(false, 1, 0, 7));
    for i in 0..20u64 {
        a.apply_flick_demand_shot(true, 10 + i);
        b.apply_flick_demand_shot(true, 10 + i);
    }
    assert_eq!(a.events, b.events);
}

// ------------------------------------------------------------ ONE_WALL_SIX

#[test]
fn start_spawns_six_live_targets() {
    let mut run = AimRun::new();
    assert!(run.start_one_wall_six_trial(false, 1_000, 1, 42));
    assert_eq!(run.live.len(), 6);
    assert_eq!(run.live[0], "target_001");
    assert_eq!(run.live[5], "target_006");
    assert_eq!(run.current_target_id, "target_001");
    assert_eq!(run.next_target_ordinal, 7);
    assert_eq!(run.events.len(), 6);
    assert!(run.events.iter().all(|e| e.kind == TargetEventKind::Spawn && e.timestamp_ns == 1_000));
}

#[test]
fn one_wall_hit_replaces_the_target_and_miss_changes_nothing() {
    let mut run = AimRun::new();
    assert!(run.start_one_wall_six_trial(false, 1_000, 1, 42));
    assert!(!run.apply_one_wall_six_shot(None, Some(2), 2_000));
    assert_eq!(run.shots[0].target_id, "target_003");
    assert!(!run.shots[0].hit);
    assert_eq!(run.events.len(), 6);
    assert!(!run.apply_one_wall_six_shot(None, None, 2_500));
    assert_eq!(run.shots[1].target_id, "");

    assert!(!run.apply_one_wall_six_shot(Some(1), None, 3_000));
    assert_eq!(run.hits, 1);
    assert_eq!(run.shots[2].target_id, "target_002");
    assert_eq!(
        run.live,
        vec!["target_001", "target_003", "target_004", "target_005", "target_006", "target_007"]
    );
    assert_eq!(
        kinds(&run)[6..],
        [
            (TargetEventKind::Despawn, "target_002".to_string()),
            (TargetEventKind::Spawn, "target_007".to_string())
        ]
    );
}

#[test]
fn finishes_at_sixty_seconds() {
    let start = 5_000_000_000u64;
    let mut run = AimRun::new();
    assert!(run.start_one_wall_six_trial(false, start, 1, 3));
    assert!(one_wall_six_should_end(&run.clock, start + 60_000_000_000));
    assert!(run.finish_one_wall_six_trial(start + 60_000_000_000));
    assert!(run.live.is_empty());
    assert_eq!(run.events.len(), 12);
    assert!(run.events[6..].iter().all(|e| e.kind == TargetEventKind::Despawn));
    let record = build_record_core(&run, 2, start + 60_000_000_000);
    assert_eq!(record.trial_type, "ONE_WALL_SIX");
    assert_eq!(record.task_version, "1");
    assert_eq!(record.duration_ns, 60_000_000_000);
}

// ---------------------------------------------------------------- TRACKING

fn tracking_run(start: u64, seed: u64) -> (AimRun, TrackingState) {
    let mut run = AimRun::new();
    let mut st = TrackingState::default();
    assert!(run.start_tracking_trial(&mut st, false, start, 1_700_000_000_000, seed));
    (run, st)
}

/// One frame with the target standing still and no reversal due.
fn frame(run: &mut AimRun, st: &mut TrackingState, now: u64, on_target: bool) -> bool {
    match run.begin_tracking_tick(st, now) {
        TrackingTick::Finished => true,
        TrackingTick::Paused => false,
        TrackingTick::Step { dt_ns } => {
            run.complete_tracking_tick(st, now, dt_ns, on_target) == TrackingTickResult::Finished
        }
    }
}

#[test]
fn tracking_scores_only_while_held_and_aimed_at_target() {
    let start = 1_000_000_000;
    let (mut run, mut st) = tracking_run(start, 42);

    sync_tracking_lmb_from_sample(&run.clock, run.task_kind, &mut st, 0);
    assert!(!frame(&mut run, &mut st, start + 10, true));
    assert_eq!(st.time_on_target_ns, 0);

    sync_tracking_lmb_from_sample(&run.clock, run.task_kind, &mut st, RI_MOUSE_LEFT_BUTTON_DOWN);
    frame(&mut run, &mut st, start + 20, true);
    assert_eq!(st.time_on_target_ns, 10);

    sync_tracking_lmb_from_sample(&run.clock, run.task_kind, &mut st, 0);
    frame(&mut run, &mut st, start + 30, false);
    assert_eq!(st.time_on_target_ns, 10);

    sync_tracking_lmb_from_sample(&run.clock, run.task_kind, &mut st, RI_MOUSE_LEFT_BUTTON_UP);
    frame(&mut run, &mut st, start + 40, true);
    assert_eq!(st.time_on_target_ns, 10);
    // Rapid-fire only while held: one shot at the press tick, none after release.
    assert_eq!(run.shots.len(), 1);
    assert!(run.shots[0].hit);
    assert_eq!(run.shots[0].timestamp_ns, start + 20);
    assert_eq!(run.hits, 1);
}

#[test]
fn rapid_fire_records_20hz_shots_while_held() {
    let start = 1_000_000_000u64;
    let (mut run, mut st) = tracking_run(start, 1);
    sync_tracking_lmb_from_sample(&run.clock, run.task_kind, &mut st, RI_MOUSE_LEFT_BUTTON_DOWN);
    frame(&mut run, &mut st, start + 1, true);
    assert_eq!(run.shots.len(), 1);
    frame(&mut run, &mut st, start + 1 + TRACKING_FIRE_INTERVAL_NS, true);
    assert_eq!(run.shots.len(), 2);
    frame(&mut run, &mut st, start + 1 + 2 * TRACKING_FIRE_INTERVAL_NS, false);
    assert_eq!(run.shots.len(), 3);
    assert_eq!(run.hits, 2);
    assert_eq!(run.shots[2].shot_index, 2);
    assert_eq!(run.shots[2].target_id, "target_001");
}

#[test]
fn frame_tick_finishes_tracking_without_mouse_samples() {
    let start = 8_000_000_000;
    let (mut run, mut st) = tracking_run(start, 17);
    assert!(frame(&mut run, &mut st, start + 30_000_000_000, false));
    assert_eq!(run.clock.phase, AimPhase::Idle);
    assert_eq!(run.events.last().unwrap().kind, TargetEventKind::Despawn);
    // A finished run reports finished on every later frame.
    assert_eq!(run.begin_tracking_tick(&mut st, start + 31_000_000_000), TrackingTick::Finished);
}

#[test]
fn tracking_pause_freezes_motion_score_and_reverse_schedule() {
    let start = 2_000_000_000;
    let (mut run, mut st) = tracking_run(start, 7);
    schedule_reverse(&mut st, start, 2_500_000_000);
    st.lmb_held = true;
    let reverse_at = st.next_reverse_at_ns.expect("reverse schedule");
    let score = st.time_on_target_ns;

    run.pause(start + 100);
    let pause_event = run.events.last().unwrap();
    assert_eq!(pause_event.kind, TargetEventKind::DirectionChange);
    assert_eq!(pause_event.timestamp_ns, start + 100);
    assert_eq!(
        run.begin_tracking_tick(&mut st, start + 5_000_000_100),
        TrackingTick::Paused
    );
    assert_eq!(st.time_on_target_ns, score);

    run.resume(&mut st, start + 5_000_000_100);
    let resume_event = run.events.last().unwrap();
    assert_eq!(resume_event.kind, TargetEventKind::DirectionChange);
    assert_eq!(resume_event.timestamp_ns, start + 5_000_000_100);
    assert_eq!(st.next_reverse_at_ns, Some(reverse_at + 5_000_000_000));
    assert_eq!(run.events.len(), 3);
}

#[test]
fn wall_and_scheduled_reversals_emit_direction_changes() {
    let start = 3_000_000_000;
    let (mut run, mut st) = tracking_run(start, 9);
    assert_eq!(run.events[0].kind, TargetEventKind::Spawn);
    schedule_reverse(&mut st, start, 10_000_000_000);
    assert!(!reverse_due(&st, start + 20_000_000));
    run.record_direction_change(start + 20_000_000);
    assert_eq!(run.events[1].kind, TargetEventKind::DirectionChange);
    st.next_reverse_at_ns = Some(start + 30_000_000);
    assert!(reverse_due(&st, start + 30_000_000));
    run.record_direction_change(start + 30_000_000);
    assert_eq!(run.events[2].kind, TargetEventKind::DirectionChange);
    assert_eq!(run.events[2].event_index, 2);
}

#[test]
fn tracking_finishes_at_active_thirty_seconds_and_persists_score_accuracy() {
    let start = 4_000_000_000;
    let (mut run, mut st) = tracking_run(start, 11);
    st.time_on_target_ns = 12_000_000_000;
    let times: Vec<u64> = (0..10).map(|i| start + i * TRACKING_FIRE_INTERVAL_NS).collect();
    run.record_tracking_shots(&times, true);
    let later: Vec<u64> = (10..20).map(|i| start + i * TRACKING_FIRE_INTERVAL_NS).collect();
    run.record_tracking_shots(&later, false);
    assert_eq!(run.hits, 10);

    assert!(!tracking_should_end(&run.clock, start + 29_999_999_999));
    let end = start + 30_500_000_000;
    assert!(tracking_should_end(&run.clock, end));
    assert!(run.finish_tracking_trial(&mut st, end));
    assert_eq!(run.score_ns, Some(12_000_000_000));
    assert_eq!(run.shots.len(), 20);
    assert_eq!(run.events.last().map(|e| e.kind), Some(TargetEventKind::Despawn));

    let record = build_record_core(&run, 1_700_000_030_000, end);
    assert_eq!(run.task_kind, AimTaskKind::Tracking);
    assert_eq!(record.trial_type, "TRACKING");
    assert_eq!(record.task_version, "2");
    assert_eq!(record.hits, 10);
    assert_eq!(record.shots, 20);
    assert_eq!(record.misses, 10);
    assert_eq!(record.duration_ns, 30_000_000_000);
    assert_eq!(record.score_ns, 12_000_000_000);
    let status = persist_outcome(&run, Ok("tracking_test".into()));
    assert_eq!(status.hits, 10);
    assert_eq!(status.shots, 20);
}

// ---------------------------------------------------------------- analysis

#[test]
fn tracking_without_shots_is_insufficient() {
    let err = check_analyzable("TRACKING", 0, 1).unwrap_err();
    assert!(matches!(err, AnalysisError::InsufficientTelemetry(_)));
    assert_eq!(
        err.message(),
        "insufficient telemetry: TRACKING analysis requires aim_shots (task_version 2+ rapid-fire)"
    );
}

#[test]
fn tracking_with_shots_is_supported() {
    assert_eq!(check_analyzable("TRACKING", 1, 1), Ok(()));
    assert_eq!(ANALYSIS_VERSION, "2");
}

#[test]
fn static_click_empty_shots_ok() {
    assert_eq!(check_analyzable("STATIC_CLICK", 0, 1), Ok(()));
}

#[test]
fn unknown_trial_type_and_missing_camera_are_refused() {
    assert_eq!(
        check_analyzable("BOWLING", 3, 3),
        Err(AnalysisError::UnsupportedTrialType("BOWLING".into()))
    );
    assert_eq!(
        check_analyzable("GRIDSHOT", 3, 0),
        Err(AnalysisError::InsufficientTelemetry("no camera samples".into()))
    );
    assert_eq!(
        AnalysisError::UnsupportedTrialType("X".into()).message(),
        "unsupported trial type: X"
    );
    assert_eq!(AnalysisError::Loader("gone".into()).message(), "loader: gone");
    assert_eq!(
        AnalysisError::ReconstructionFailed("nan".into()).message(),
        "reconstruction failed: nan"
    );
    assert_eq!(check_analyzable("FLICK_LADDER", 0, 1), Ok(()));
}

#[test]
fn flags_are_sorted_and_deduplicated() {
    let flags = [
        QualityFlag::ZeroAcquisitionDuration,
        QualityFlag::OrphanShot,
        QualityFlag::TimestampGap,
        QualityFlag::OrphanShot,
    ];
    assert_eq!(
        normalize_flags(&flags),
        vec![
            QualityFlag::OrphanShot,
            QualityFlag::TimestampGap,
            QualityFlag::ZeroAcquisitionDuration
        ]
    );
    assert!(normalize_flags(&[]).is_empty());
}

#[test]
fn shot_flags_add_movement_findings_only_for_linked_shots() {
    let cands = vec![
        MovementCandidate { id: 0, start_ns: 0, end_ns: 10, flags: vec![QualityFlag::MultiShotMovement] },
        MovementCandidate { id: 1, start_ns: 20, end_ns: 30, flags: vec![] },
    ];
    assert_eq!(
        shot_quality_flags(&[], &cands, Some(0), true, false),
        vec![QualityFlag::MultiShotMovement, QualityFlag::CameraInputMismatch]
    );
    assert_eq!(
        shot_quality_flags(&[QualityFlag::MultiShotMovement], &cands, Some(1), false, true),
        vec![QualityFlag::MultiShotMovement, QualityFlag::ZeroAcquisitionDuration]
    );
    assert_eq!(
        shot_quality_flags(&[QualityFlag::OrphanShot], &cands, None, true, true),
        vec![QualityFlag::OrphanShot]
    );
}

#[test]
fn trial_flags_add_discontinuity() {
    assert_eq!(trial_quality_flags(&[QualityFlag::TimestampGap], 0), vec![QualityFlag::TimestampGap]);
    assert_eq!(
        trial_quality_flags(&[QualityFlag::TimestampGap], 2),
        vec![QualityFlag::TimestampGap, QualityFlag::ReconstructionDiscontinuity]
    );
}

#[test]
fn camera_timestamps_must_exist_and_not_go_backwards() {
    assert_eq!(
        check_camera_timestamps(&[]),
        Err(AnalysisError::InsufficientTelemetry("no camera samples".into()))
    );
    assert_eq!(check_camera_timestamps(&[5]), Ok(()));
    assert_eq!(check_camera_timestamps(&[1, 1, 2, 9]), Ok(()));
    assert_eq!(
        check_camera_timestamps(&[1, 3, 2]),
        Err(AnalysisError::ReconstructionFailed("camera timestamps are not monotonic".into()))
    );
}

#[test]
fn shots_never_draw_from_the_generator() {
    let mut run = AimRun::new();
    assert!(run.start_one_wall_six_trial(false, 1_000, 7, 42));
    let (rng, seed, ordinal) = (run.rng_state, run.random_seed, run.next_target_ordinal);
    assert!(!run.apply_one_wall_six_shot(None, Some(0), 2_000));
    assert_eq!((run.rng_state, run.random_seed, run.next_target_ordinal), (rng, seed, ordinal));
    assert!(!run.apply_one_wall_six_shot(Some(0), None, 3_000));
    assert_eq!((run.rng_state, run.random_seed, run.start_unix_ms), (rng, seed, 7));
    assert_eq!(run.current_target_id, "target_001");

    let mut click = AimRun::new();
    assert!(click.start_aim_trial(false, 1_000, 7, 99));
    let rng = click.rng_state;
    assert!(!click.apply_aim_shot(false, 2_000));
    assert!(!click.apply_aim_shot(true, 3_000));
    assert_eq!(click.rng_state, rng);
    assert_eq!(click.next_target_ordinal, 3);
    click.cancel_aim_trial();
    assert_eq!((click.rng_state, click.last_timestamp_ns), (rng, 3_000));
}
