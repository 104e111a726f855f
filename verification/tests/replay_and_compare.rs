use sense_maxer::compare::{
    match_status_of, processor_filter_ok, push_if_ne, validity_from_mismatches,
    CandidateCriteria, ComparisonValidity, ConditionMismatch, MatchStatus, ProcessorFilter,
    COMPARISON_VERSION,
};
use sense_maxer::replay::{
    advance_replay_t_ns, camera_pose_index_at, latest_spawn_index, live_target_events_at,
    shots_crossed,
    string_less, TargetEvent, TargetEventKind,
};
use sense_maxer::processor::{cap_mode_from_name, processor_kind, CapMode, NoAcceleration, ProcessorKind};
use sense_maxer::session::{
    as_i64, check_completed_status, check_can_end_validation, check_can_start_validation, session_start_record,
    unix_ms_from_millis,
    validation_acceleration_config, validation_completed_message, validation_running_message, InputSequencer,
    ValidationState, APP_VERSION, EXPERIMENT_ID, EXPERIMENT_VERSION,
};
use sense_maxer::types::FovAxis;

fn event(id: &str, t: u64, kind: TargetEventKind) -> TargetEvent {
    TargetEvent { target_id: id.to_string(), kind, timestamp_ns: t }
}

#[test]
fn camera_pose_holds_latest_sample_at_or_before_time() {
    let samples = vec![100u64, 200];

    assert_eq!(camera_pose_index_at(&samples, 99), None);
    assert_eq!(camera_pose_index_at(&samples, 100), Some(0));
    assert_eq!(camera_pose_index_at(&samples, 150), Some(0));
    assert_eq!(camera_pose_index_at(&samples, 200), Some(1));
    assert_eq!(camera_pose_index_at(&samples, 250), Some(1));
}

#[test]
fn live_targets_nets_spawn_and_despawn_events() {
    let events = vec![
        event("b", 100, TargetEventKind::Spawn),
        event("a", 110, TargetEventKind::Spawn),
        event("b", 120, TargetEventKind::DirectionChange),
        event("b", 130, TargetEventKind::Spawn),
        event("a", 140, TargetEventKind::Despawn),
    ];

    // "a" from its spawn, "b" from its direction change, ordered by id.
    assert_eq!(live_target_events_at(&events, 125), vec![1, 2]);
    assert_eq!(live_target_events_at(&events, 140), vec![3]);
}

#[test]
fn live_targets_before_any_event_are_empty() {
    let events = vec![event("x", 10, TargetEventKind::Spawn)];
    assert!(live_target_events_at(&events, 9).is_empty());
    assert_eq!(live_target_events_at(&events, 10), vec![0]);
    let other = vec![event("x", 10, TargetEventKind::Other)];
    assert!(live_target_events_at(&other, 10).is_empty());
}

#[test]
fn shots_crossed_uses_open_closed_time_window() {
    let shots = vec![100u64, 150, 200];

    let crossed = shots_crossed(&shots, 100, 200);

    assert_eq!(crossed, vec![1, 2]);
}

#[test]
fn advance_replay_t_applies_speed_and_pauses_at_end() {
    // 2x speed over a quarter second advances half a second.
    assert_eq!(
        advance_replay_t_ns(true, 500_000_000, 1_000_000_000, 2_000_000_000),
        (1_500_000_000, true)
    );
    // 4x speed over a quarter second would pass the end: clamp and stop.
    assert_eq!(
        advance_replay_t_ns(true, 1_000_000_000, 1_500_000_000, 2_000_000_000),
        (2_000_000_000, false)
    );
}

#[test]
fn advance_replay_t_does_not_move_while_paused() {
    assert_eq!(
        advance_replay_t_ns(false, 4_000_000_000, 1_500_000_000, 2_000_000_000),
        (1_500_000_000, false)
    );
}

#[test]
fn advance_replay_t_saturates() {
    assert_eq!(advance_replay_t_ns(true, u64::MAX, 5, u64::MAX), (u64::MAX, false));
    assert_eq!(advance_replay_t_ns(false, 0, 30, 20), (20, false));
}

#[test]
fn string_order_is_lexicographic() {
    let a = "a".to_string();
    let ab = "ab".to_string();
    let b = "b".to_string();
    assert!(string_less(&a, &ab));
    assert!(string_less(&ab, &b));
    assert!(!string_less(&b, &a));
    assert!(!string_less(&a, &a));
}

#[test]
fn comparison_version_is_2() {
    assert_eq!(COMPARISON_VERSION, "2");
}

fn mismatches(keys: &[&str]) -> Vec<ConditionMismatch> {
    let mut out = Vec::new();
    for k in keys {
        push_if_ne(&mut out, k, "x", "y");
    }
    out
}

#[test]
fn no_difference_is_a_fair_match() {
    let ms = mismatches(&[]);
    assert_eq!(match_status_of(&ms), MatchStatus::Matched);
    assert_eq!(validity_from_mismatches(&ms), ComparisonValidity::FairMatch);
}

#[test]
fn sensitivity_only_difference_is_intentional() {
    let ms = mismatches(&["sensitivity"]);
    assert_eq!(match_status_of(&ms), MatchStatus::Mismatched);
    assert_eq!(
        validity_from_mismatches(&ms),
        ComparisonValidity::IntentionalParameterDiff
    );
    assert_eq!(
        validity_from_mismatches(&mismatches(&["dpi", "sensitivity"])),
        ComparisonValidity::IntentionalParameterDiff
    );
}

#[test]
fn task_difference_is_invalid_cross_task() {
    assert_eq!(
        validity_from_mismatches(&mismatches(&["sensitivity", "trial_type"])),
        ComparisonValidity::InvalidCrossTask
    );
    assert_eq!(
        validity_from_mismatches(&mismatches(&["task_version"])),
        ComparisonValidity::InvalidCrossTask
    );
}

#[test]
fn other_difference_is_other_mismatch() {
    assert_eq!(
        validity_from_mismatches(&mismatches(&["fov_deg", "dpi"])),
        ComparisonValidity::OtherMismatch
    );
}

#[test]
fn push_if_ne_records_only_differences() {
    let mut out = Vec::new();
    push_if_ne(&mut out, "dpi", "800", "800");
    assert!(out.is_empty());
    push_if_ne(&mut out, "dpi", "800", "1600");
    assert_eq!(
        out,
        vec![ConditionMismatch {
            key: "dpi".into(),
            value_a: "800".into(),
            value_b: "1600".into()
        }]
    );
}

#[test]
fn processor_must_differ_rejects_same() {
    assert!(!processor_filter_ok("none", "none", &ProcessorFilter::MustDiffer));
    assert!(processor_filter_ok("none", "rawaccel_linear", &ProcessorFilter::MustDiffer));
    assert!(processor_filter_ok("none", "none", &ProcessorFilter::Any));
    let exact = ProcessorFilter::Exact { processor_id: "rawaccel_linear".into() };
    assert!(processor_filter_ok("none", "rawaccel_linear", &exact));
    assert!(!processor_filter_ok("rawaccel_linear", "none", &exact));
}

#[test]
fn candidate_criteria_defaults() {
    let c = CandidateCriteria::default();
    assert_eq!(c.processor_filter, ProcessorFilter::MustDiffer);
    assert_eq!(c.list_limit, 200);
}

#[test]
fn validation_start_and_end_guards() {
    assert_eq!(check_can_start_validation(ValidationState::Idle), Ok(()));
    assert_eq!(
        check_can_start_validation(ValidationState::Running),
        Err("A validation session is already running.".to_string())
    );
    assert_eq!(
        check_can_end_validation(ValidationState::Idle, Some("s")),
        Err("No validation session is running.".to_string())
    );
    assert_eq!(
        check_can_end_validation(ValidationState::Running, None),
        Err("Running validation has no active session ID.".to_string())
    );
    assert_eq!(check_can_end_validation(ValidationState::Running, Some("s")), Ok(()));
    assert!(ValidationState::Running.is_running());
    assert!(!ValidationState::Idle.is_running());
}

#[test]
fn validation_status_lines() {
    assert_eq!(
        validation_running_message("session_20260101_000001"),
        "Validation running: session_20260101_000001"
    );
    assert_eq!(
        validation_completed_message("session_20260101_000001"),
        "Validation completed: session_20260101_000001"
    );
}

#[test]
fn as_i64_rejects_values_past_the_integer_range() {
    assert_eq!(as_i64(42, "timestamp_ns"), Ok(42));
    assert_eq!(as_i64(i64::MAX as u64, "timestamp_ns"), Ok(i64::MAX));
    assert_eq!(
        as_i64(i64::MAX as u64 + 1, "timestamp_ns"),
        Err("timestamp_ns exceeds SQLite INTEGER range".to_string())
    );
}

#[test]
fn input_sequencer_numbers_and_times_samples() {
    let mut s = InputSequencer::default();
    assert_eq!(s.advance(1_000), (0, 0));
    assert_eq!(s.advance(1_500), (1, 500));
    assert_eq!(s.advance(1_200), (2, 0));
    s.clear();
    assert_eq!(s.advance(9), (0, 0));
}

#[test]
fn latest_spawn_of_a_target() {
    let events = vec![
        event("t1", 10, TargetEventKind::Spawn),
        event("t2", 20, TargetEventKind::Spawn),
        event("t1", 30, TargetEventKind::Despawn),
        event("t1", 40, TargetEventKind::Spawn),
        event("t1", 50, TargetEventKind::DirectionChange),
    ];
    assert_eq!(latest_spawn_index(&events, "t1"), Some(3));
    assert_eq!(latest_spawn_index(&events, "t2"), Some(1));
    assert_eq!(latest_spawn_index(&events, "t3"), None);
}

#[test]
fn factory_accepts_none_rejects_unknown() {
    assert!(processor_kind("none").is_ok());
    assert!(processor_kind("raw_accel").is_err());
    assert_eq!(processor_kind("rawaccel_linear"), Ok(ProcessorKind::RawAccelLinear));
    assert_eq!(
        processor_kind("raw_accel"),
        Err("unknown processor id: raw_accel".to_string())
    );
    assert_eq!(ProcessorKind::NoAcceleration.id(), "none");
    assert_eq!(ProcessorKind::NoAcceleration.version(), "1.0.0");
    assert_eq!(ProcessorKind::RawAccelLinear.version(), "1.2.0");
}

#[test]
fn cap_mode_names() {
    assert_eq!(cap_mode_from_name(Some("io")), CapMode::Io);
    assert_eq!(cap_mode_from_name(Some("in")), CapMode::In);
    assert_eq!(cap_mode_from_name(Some("out")), CapMode::Out);
    assert_eq!(cap_mode_from_name(Some("sideways")), CapMode::Out);
    assert_eq!(cap_mode_from_name(None), CapMode::Out);
    assert_eq!(CapMode::Io.as_str(), "io");
}

#[test]
fn only_completed_trials_are_stored() {
    assert_eq!(check_completed_status("completed"), Ok(()));
    assert_eq!(
        check_completed_status("cancelled"),
        Err("aim trial status must be \"completed\", got \"cancelled\"".to_string())
    );
}

#[test]
fn no_acceleration_names_itself_and_has_empty_config() {
    let p = NoAcceleration;
    assert_eq!(p.id(), "none");
    assert_eq!(p.version(), "1.0.0");
    assert_eq!(p.config_json(), "{}");
}

#[test]
fn session_start_record_is_unended_with_lab_versions() {
    let r = session_start_record("session_20260917_000001", "config_000001", 1_700_000_000_000);
    assert_eq!(r.id, "session_20260917_000001");
    assert_eq!(r.config_id, "config_000001");
    assert_eq!(r.app_version, APP_VERSION);
    assert_eq!(r.experiment_id, EXPERIMENT_ID);
    assert_eq!(r.experiment_version, EXPERIMENT_VERSION);
    assert_eq!((APP_VERSION, EXPERIMENT_ID, EXPERIMENT_VERSION), ("0.1.0", "validation_lab", "0.1.0"));
    assert_eq!(r.seed, 0);
    assert_eq!(r.start_unix_ms, 1_700_000_000_000);
    assert_eq!(r.end_unix_ms, None);
}

#[test]
fn validation_sessions_record_acceleration_off() {
    let c = validation_acceleration_config();
    assert!(!c.enabled);
    assert_eq!(c.model, "none");
    assert_eq!(c.processor_id, "none");
    assert_eq!(c.processor_version, "1.0.0");
    assert_eq!(c.processor_config_json, "{}");
    assert_eq!(FovAxis::Horizontal.as_str(), "Horizontal");
}

#[test]
fn clock_millis_beyond_i64_are_refused() {
    assert_eq!(unix_ms_from_millis(1_700_000_000_123), Ok(1_700_000_000_123));
    assert_eq!(unix_ms_from_millis(i64::MAX as u128), Ok(i64::MAX));
    assert_eq!(
        unix_ms_from_millis(i64::MAX as u128 + 1),
        Err("system time exceeds i64 milliseconds".to_string())
    );
}
