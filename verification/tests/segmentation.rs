use sense_maxer::acquisition::local_acquisition_start_ns;
use sense_maxer::segment::{
    attach_shot, correction_window, detect_candidates, flag_multi_shot, ms_to_ns_sat,
    scan_timestamp_gaps, segment, MotionPoint, MovementCandidate, QualityFlag, SegmentConfig,
    ShotTiming,
};

const ONSET_DEG_S: f64 = 40.0;
const SETTLE_DEG_S: f64 = 15.0;

/// A camera sample at `t_ms` with the given angular speed, classified by the
/// analysis thresholds (onset at 40 °/s or more, settled below 15 °/s).
fn cam(t_ms: u64, speed: f64) -> MotionPoint {
    MotionPoint {
        timestamp_ns: t_ms * 1_000_000,
        onset: speed >= ONSET_DEG_S,
        settled: speed < SETTLE_DEG_S,
    }
}

fn points(speeds: &[(u64, f64)]) -> Vec<MotionPoint> {
    speeds.iter().map(|(t, s)| cam(*t, *s)).collect()
}

fn shot(shot_index: u32, timestamp_ns: u64) -> ShotTiming {
    ShotTiming { shot_index, timestamp_ns }
}

#[test]
fn onset_and_settle_hysteresis() {
    // Quiet, burst above onset, then settle below settle for 80ms+
    let pts = points(&[
        (0, 0.0),
        (10, 50.0), // onset
        (20, 60.0),
        (30, 10.0), // below settle — start clock
        (50, 10.0),
        (110, 10.0), // 80ms from 30 → settle
        (120, 0.0),
    ]);
    let (cands, _) = segment(&pts, &[], &SegmentConfig::v1());
    assert_eq!(cands.len(), 1);
    assert_eq!(cands[0].start_ns, 10_000_000);
    assert!(cands[0].end_ns >= 110_000_000);
}

#[test]
fn settle_clock_resets_when_speed_rises() {
    let pts = points(&[
        (0, 50.0),
        (10, 10.0), // settle start
        (40, 20.0), // reset (>= settle 15)
        (50, 10.0),
        (130, 10.0), // need 80ms from 50
    ]);
    let (cands, _) = segment(&pts, &[], &SegmentConfig::v1());
    assert_eq!(cands.len(), 1);
    assert!(cands[0].end_ns >= 130_000_000);
}

#[test]
fn min_duration_rejects_short_candidates() {
    let pts = points(&[
        (0, 50.0),
        (10, 10.0),
        (30, 10.0), // only 30ms total if settles early — may be short
    ]);
    let (cands, _) = segment(&pts, &[], &SegmentConfig::v1());
    // 30ms < 40ms min → rejected
    assert!(cands.is_empty());
}

#[test]
fn orphan_shot_when_no_candidate() {
    let pts = points(&[(0, 0.0), (100, 0.0)]);
    let shots = vec![shot(0, 50_000_000)];
    let (_, links) = segment(&pts, &shots, &SegmentConfig::v1());
    assert!(links[0].flags.contains(&QualityFlag::OrphanShot));
    assert!(links[0].primary_movement_id.is_none());
}

#[test]
fn multi_shot_flag_on_shared_candidate() {
    let pts = points(&[
        (0, 50.0),
        (20, 50.0),
        (40, 50.0),
        (60, 10.0),
        (150, 10.0),
    ]);
    let shots = vec![shot(0, 30_000_000), shot(1, 50_000_000)];
    let (cands, links) = segment(&pts, &shots, &SegmentConfig::v1());
    assert_eq!(cands.len(), 1);
    assert!(cands[0].flags.contains(&QualityFlag::MultiShotMovement));
    assert_eq!(links[0].primary_movement_id, Some(0));
    assert_eq!(links[1].primary_movement_id, Some(0));
}

#[test]
fn config_v1_thresholds_in_nanoseconds() {
    let c = SegmentConfig::v1();
    assert_eq!(c.settle_ns, 80_000_000);
    assert_eq!(c.min_movement_ns, 40_000_000);
    assert_eq!(c.shot_attach_ns, 150_000_000);
    assert_eq!(c.post_click_max_ns, 300_000_000);
    assert_eq!(ms_to_ns_sat(u64::MAX), u64::MAX);
    assert_eq!(ms_to_ns_sat(3), 3_000_000);
}

#[test]
fn movement_that_never_settles_ends_at_the_last_sample() {
    let pts = points(&[(0, 50.0), (30, 60.0), (90, 70.0)]);
    let cands = detect_candidates(&pts, &SegmentConfig::v1());
    assert_eq!(cands.len(), 1);
    assert_eq!(cands[0].start_ns, 0);
    assert_eq!(cands[0].end_ns, 90_000_000);
    assert_eq!(cands[0].flags, vec![QualityFlag::NoSettle]);
}

#[test]
fn two_separate_movements_get_consecutive_ids() {
    let pts = points(&[
        (0, 50.0),
        (50, 10.0),
        (140, 10.0),
        (200, 60.0),
        (260, 10.0),
        (350, 10.0),
    ]);
    let cands = detect_candidates(&pts, &SegmentConfig::v1());
    assert_eq!(cands.len(), 2);
    assert_eq!(cands[0].id, 0);
    assert_eq!(cands[1].id, 1);
    assert_eq!(cands[1].start_ns, 200_000_000);
}

#[test]
fn flag_multi_shot_counts_shots_inside_the_movement() {
    let c = vec![MovementCandidate { id: 0, start_ns: 10, end_ns: 20, flags: vec![] }];
    let one = flag_multi_shot(&c, &[15, 30]);
    assert!(one[0].flags.is_empty());
    let two = flag_multi_shot(&c, &[10, 20]);
    assert_eq!(two[0].flags, vec![QualityFlag::MultiShotMovement]);
}

#[test]
fn click_shortly_after_a_movement_attaches_to_it() {
    let c = vec![MovementCandidate { id: 3, start_ns: 0, end_ns: 100, flags: vec![] }];
    assert_eq!(attach_shot(&c, 200, 150), (Some(3), vec![]));
    let (primary, flags) = attach_shot(&c, 300, 150);
    assert_eq!(primary, None);
    assert_eq!(flags, vec![QualityFlag::OrphanShot]);
}

#[test]
fn click_inside_two_movements_is_ambiguous() {
    let c = vec![
        MovementCandidate { id: 0, start_ns: 0, end_ns: 100, flags: vec![] },
        MovementCandidate { id: 1, start_ns: 50, end_ns: 150, flags: vec![] },
    ];
    let (primary, flags) = attach_shot(&c, 60, 150);
    assert_eq!(primary, None);
    assert_eq!(flags, vec![QualityFlag::AmbiguousShot]);
}

#[test]
fn correction_window_ends_when_the_view_settles() {
    let pts = points(&[(0, 50.0), (100, 10.0), (200, 10.0), (400, 10.0)]);
    let c = vec![MovementCandidate { id: 0, start_ns: 0, end_ns: 50_000_000, flags: vec![] }];
    let (start, end) = correction_window(&pts, &c, 50_000_000, &SegmentConfig::v1());
    assert_eq!(start, Some(50_000_000));
    assert_eq!(end, Some(200_000_000));
}

#[test]
fn correction_window_is_capped_after_the_click() {
    let pts = points(&[(0, 50.0), (100, 50.0), (500, 50.0)]);
    let c = vec![MovementCandidate { id: 0, start_ns: 0, end_ns: 500_000_000, flags: vec![] }];
    let (start, end) = correction_window(&pts, &c, 50_000_000, &SegmentConfig::v1());
    assert_eq!(start, Some(50_000_000));
    assert_eq!(end, Some(350_000_000));
}

#[test]
fn timestamp_gaps_flag_once() {
    assert_eq!(scan_timestamp_gaps(&[0, 10_000_000], &[0], 50), vec![]);
    assert_eq!(
        scan_timestamp_gaps(&[0, 60_000_000, 200_000_000], &[0, 100_000_000], 50),
        vec![QualityFlag::TimestampGap]
    );
    assert_eq!(
        scan_timestamp_gaps(&[], &[0, 51_000_000], 50),
        vec![QualityFlag::TimestampGap]
    );
}

#[test]
fn first_flick_into_click_has_nonzero_duration() {
    // Quiet for 100 ms, then a flick at 100 °/s ending at the click sample.
    let mut speeds: Vec<(u64, f64)> = (0..100).map(|t| (t, 0.0)).collect();
    for t in [110, 120, 130, 140, 150] {
        speeds.push((t, 100.0));
    }
    let pts = points(&speeds);
    let cfg = SegmentConfig::v1();
    let shots = vec![shot(0, 150_000_000)];
    let (cands, links) = segment(&pts, &shots, &cfg);
    let mid = links[0].primary_movement_id.expect("linked");
    let cand = &cands[mid as usize];
    let acq = local_acquisition_start_ns(&pts, cand.start_ns, 150_000_000, cfg.settle_ns);
    assert!(150_000_000 - acq > 0, "acquisition must start before the click");
    assert_eq!(acq, 110_000_000);
}

#[test]
fn acquisition_starts_at_the_segment_after_a_completed_settle() {
    let pts = points(&[(0, 50.0), (10, 10.0), (100, 10.0), (120, 60.0), (130, 60.0)]);
    assert_eq!(local_acquisition_start_ns(&pts, 0, 140_000_000, 80_000_000), 100_000_000);
    // Settled through the click: the settle end.
    let still = points(&[(0, 50.0), (10, 10.0), (100, 10.0), (130, 10.0)]);
    assert_eq!(local_acquisition_start_ns(&still, 0, 140_000_000, 80_000_000), 130_000_000);
    // No sample in the window: the movement start.
    assert_eq!(local_acquisition_start_ns(&still, 200_000_000, 300_000_000, 80_000_000), 200_000_000);
    // A short settle does not count: the active bout after the last settled sample.
    let short = points(&[(0, 50.0), (10, 10.0), (20, 10.0), (30, 60.0), (40, 60.0)]);
    assert_eq!(local_acquisition_start_ns(&short, 5_000_000, 50_000_000, 80_000_000), 20_000_000);
}
