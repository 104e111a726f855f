use sense_maxer::integrity::IntegrityTracker;
use sense_maxer::queue::MouseQueue;
use sense_maxer::session::{sample_handling, InputCounters};
use sense_maxer::types::{InputIntegrityReport, MouseSample};

#[test]
fn drain_preserves_every_sample_order() {
    let mut queue = MouseQueue::new();
    queue.push_raw(10, -1, 0x01, 100);
    queue.push_raw(20, -2, 0x02, 200);
    queue.push_raw(30, -3, 0x04, 300);

    let samples = queue.drain_all();

    assert_eq!(samples.len(), 3);
    assert_eq!(
        samples
            .iter()
            .map(|sample| (
                sample.dx,
                sample.dy,
                sample.buttons,
                sample.timestamp_ns,
                sample.sequence_number,
            ))
            .collect::<Vec<_>>(),
        vec![
            (10, -1, 0x01, 100, 1),
            (20, -2, 0x02, 200, 2),
            (30, -3, 0x04, 300, 3),
        ]
    );
    assert!(queue.drain_all().is_empty());
}

#[test]
fn integrity_detects_gap_duplicate_ooo_regression() {
    let mut tracker = IntegrityTracker::default();
    for sample in [
        sample(1, 100),
        sample(3, 300),
        sample(2, 200),
        sample(3, 300),
    ] {
        tracker.observe(&sample);
    }

    let report = tracker.report();
    assert_eq!(report.samples_received, 4);
    assert_eq!(report.sequence_gaps, 1);
    assert_eq!(report.duplicate_sequences, 1);
    assert_eq!(report.out_of_order_samples, 1);
    assert_eq!(report.timestamp_regressions, 1);
}

fn sample(sequence_number: u64, timestamp_ns: u64) -> MouseSample {
    MouseSample {
        timestamp_ns,
        dx: 0,
        dy: 0,
        buttons: 0,
        sequence_number,
    }
}

#[test]
fn numbering_continues_across_drains() {
    let mut queue = MouseQueue::default();
    let first = queue.push_sample(1, 1, 0, 10);
    assert_eq!(first.sequence_number, 1);
    assert_eq!(queue.drain_all(), vec![first]);
    let second = queue.push_sample(2, 2, 0, 20);
    assert_eq!(second.sequence_number, 2);
    assert_eq!(queue.drain_all().len(), 1);
}

#[test]
fn clean_stream_is_not_suspect() {
    let mut tracker = IntegrityTracker::new();
    for s in 1..=5u64 {
        tracker.observe(&sample(s, s * 100));
    }
    let report = tracker.report();
    assert_eq!(report.samples_received, 5);
    assert_eq!(report.sequence_gaps, 0);
    assert!(!report.is_pipeline_suspect());
}

#[test]
fn gaps_add_up_the_skipped_numbers() {
    let mut tracker = IntegrityTracker::new();
    tracker.observe(&sample(1, 1));
    tracker.observe(&sample(5, 2));
    tracker.observe(&sample(10, 3));
    assert_eq!(tracker.report().sequence_gaps, 3 + 4);
    assert!(tracker.report().is_pipeline_suspect());
}

#[test]
fn reset_forgets_history() {
    let mut tracker = IntegrityTracker::new();
    tracker.observe(&sample(1, 100));
    tracker.observe(&sample(1, 50));
    tracker.reset();
    assert_eq!(
        tracker.report(),
        InputIntegrityReport {
            samples_received: 0,
            sequence_gaps: 0,
            duplicate_sequences: 0,
            out_of_order_samples: 0,
            timestamp_regressions: 0,
        }
    );
    tracker.observe(&sample(7, 1));
    assert_eq!(tracker.report().samples_received, 1);
    assert_eq!(tracker.report().duplicate_sequences, 0);
}

#[test]
fn each_anomaly_alone_marks_pipeline_suspect() {
    let base = InputIntegrityReport {
        samples_received: 3,
        sequence_gaps: 0,
        duplicate_sequences: 0,
        out_of_order_samples: 0,
        timestamp_regressions: 0,
    };
    assert!(!base.is_pipeline_suspect());
    assert!(InputIntegrityReport { sequence_gaps: 1, ..base }.is_pipeline_suspect());
    assert!(InputIntegrityReport { duplicate_sequences: 1, ..base }.is_pipeline_suspect());
    assert!(InputIntegrityReport { out_of_order_samples: 1, ..base }.is_pipeline_suspect());
    assert!(InputIntegrityReport { timestamp_regressions: 1, ..base }.is_pipeline_suspect());
}

#[test]
fn late_samples_are_judged_against_the_highest_number_seen() {
    let mut tracker = IntegrityTracker::new();
    for (seq, t) in [(1u64, 10u64), (5, 20), (3, 30), (4, 40), (5, 50), (6, 60)] {
        tracker.observe(&sample(seq, t));
    }
    let report = tracker.report();
    assert_eq!(report.sequence_gaps, 3);
    assert_eq!(report.out_of_order_samples, 2);
    assert_eq!(report.duplicate_sequences, 1);
    assert_eq!(report.timestamp_regressions, 0);
}

#[test]
fn menu_cursor_discards_samples_and_counters_follow_validation() {
    assert_eq!(sample_handling(false, true), (false, false));
    assert_eq!(sample_handling(false, false), (false, false));
    assert_eq!(sample_handling(true, false), (true, false));
    assert_eq!(sample_handling(true, true), (true, true));
}

#[test]
fn counters_accumulate_net_and_absolute_counts_only_when_asked() {
    let mut c = InputCounters::default();
    c.record(-5, 3, true);
    c.record(7, -1, true);
    c.record(100, 100, false);
    assert_eq!(c.net_dx, 2);
    assert_eq!(c.net_dy, 2);
    assert_eq!(c.abs_dx, 12);
    assert_eq!((c.last_dx, c.last_dy), (100, 100));
    assert_eq!(c.samples_this_frame, 3);
    c.begin_frame();
    assert_eq!(c.samples_this_frame, 0);
    assert_eq!(c.net_dx, 2);
}

#[test]
fn counters_saturate_instead_of_wrapping() {
    let mut c = InputCounters { net_dx: i64::MAX - 1, net_dy: i64::MIN + 1, abs_dx: u64::MAX - 1, ..InputCounters::default() };
    c.record(10, -10, true);
    assert_eq!(c.net_dx, i64::MAX);
    assert_eq!(c.net_dy, i64::MIN);
    assert_eq!(c.abs_dx, u64::MAX);
    let mut d = InputCounters::default();
    d.record(i32::MIN, 0, true);
    assert_eq!(d.abs_dx, 2_147_483_648);
}

#[test]
fn kth_push_is_numbered_k_across_drains() {
    let mut queue = MouseQueue::new();
    queue.push_raw(1, 0, 0, 10);
    queue.push_raw(2, 0, 0, 20);
    let first = queue.drain_all();
    queue.push_raw(3, 0, 0, 30);
    let second = queue.drain_all();
    assert!(queue.drain_all().is_empty());
    queue.push_raw(4, 0, 0, 40);
    queue.push_raw(5, 0, 0, 50);
    let third = queue.drain_all();
    let all: Vec<u64> = first.iter().chain(second.iter()).chain(third.iter()).map(|s| s.sequence_number).collect();
    assert_eq!(all, vec![1, 2, 3, 4, 5]);
}
