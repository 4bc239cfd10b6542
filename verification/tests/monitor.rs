use std::collections::HashMap;
use sysguard::ebpf_monitor::{
    decode_sample, midpoint, Alert, EBPFMonitor, PerfSample, SyscallStat, TraceRecord,
    ALERT_THRESHOLD, SCORE_ONE,
};

fn call(syscall_id: u32, start_ts: u64, end_ts: u64, return_code: i64) -> TraceRecord {
    TraceRecord { pid: 7, syscall_id, start_ts, end_ts, return_code }
}

fn stat(count: u64, error_count: u64, avg_duration_ns: u64) -> SyscallStat {
    SyscallStat { count, error_count, avg_duration_ns, suspicious_score: 0 }
}

#[test]
fn busy_class_scores_three_tenths() {
    let mut monitor = EBPFMonitor::new();
    for _ in 0..1001 {
        let alert = monitor.record(&call(59, 0, 0, 0));
        assert!(alert.is_none());
    }
    let stat: SyscallStat = monitor.get(59).unwrap();
    assert_eq!(stat.count, 1001);
    assert_eq!(stat.error_count, 0);
    assert_eq!(stat.avg_duration_ns, 0);
    assert_eq!(stat.suspicious_score, 300);
    assert!(stat.suspicious_score >= 300 && stat.suspicious_score < 700);
}

#[test]
fn thousand_calls_are_not_yet_busy() {
    let mut monitor = EBPFMonitor::new();
    for _ in 0..1000 {
        monitor.record(&call(1, 0, 0, 0));
    }
    assert_eq!(monitor.get(1).unwrap().suspicious_score, 0);
}

#[test]
fn score_adds_the_three_contributions() {
    assert_eq!(EBPFMonitor::calculate_suspicious_score(&stat(10, 0, 0)), 0);
    assert_eq!(EBPFMonitor::calculate_suspicious_score(&stat(10, 4, 0)), 400);
    assert_eq!(EBPFMonitor::calculate_suspicious_score(&stat(10, 0, 100_000_001)), 300);
    assert_eq!(EBPFMonitor::calculate_suspicious_score(&stat(1001, 0, 0)), 300);
    assert_eq!(EBPFMonitor::calculate_suspicious_score(&stat(10, 4, 100_000_001)), 700);
    assert_eq!(EBPFMonitor::calculate_suspicious_score(&stat(1001, 0, 100_000_001)), 600);
    assert_eq!(EBPFMonitor::calculate_suspicious_score(&stat(1001, 400, 0)), 700);
    assert_eq!(EBPFMonitor::calculate_suspicious_score(&stat(1001, 400, 100_000_001)), SCORE_ONE);
}

#[test]
fn score_thresholds_are_strict() {
    assert_eq!(EBPFMonitor::calculate_suspicious_score(&stat(10, 3, 0)), 0);
    assert_eq!(EBPFMonitor::calculate_suspicious_score(&stat(10, 0, 100_000_000)), 0);
    assert_eq!(EBPFMonitor::calculate_suspicious_score(&stat(1000, 0, 0)), 0);
    assert_eq!(EBPFMonitor::calculate_suspicious_score(&stat(0, 0, 0)), 0);
}

#[test]
fn score_of_the_largest_counters_does_not_overflow() {
    assert_eq!(
        EBPFMonitor::calculate_suspicious_score(&stat(u64::MAX, u64::MAX, u64::MAX)),
        SCORE_ONE
    );
}

#[test]
fn score_is_the_same_when_computed_twice() {
    let mut monitor = EBPFMonitor::new();
    for i in 0..20 {
        monitor.record(&call(3, 0, 250_000_000, if i % 2 == 0 { -1 } else { 0 }));
    }
    let kept = monitor.get(3).unwrap();
    let once = EBPFMonitor::calculate_suspicious_score(&kept);
    let twice = EBPFMonitor::calculate_suspicious_score(&kept);
    assert_eq!(once, twice);
    assert_eq!(once, kept.suspicious_score);
    assert_eq!(once, 700);
}

#[test]
fn average_favours_the_latest_duration() {
    let mut monitor = EBPFMonitor::new();
    monitor.record(&call(2, 1000, 1100, 0));
    assert_eq!(monitor.get(2).unwrap().avg_duration_ns, 50);
    monitor.record(&call(2, 2000, 2300, 0));
    assert_eq!(monitor.get(2).unwrap().avg_duration_ns, 175);
    monitor.record(&call(2, 0, 1, 0));
    assert_eq!(monitor.get(2).unwrap().avg_duration_ns, 88);
}

#[test]
fn exit_before_entry_counts_as_zero_duration() {
    let record = call(2, 500, 100, 0);
    assert_eq!(record.duration(), 0);
    let mut monitor = EBPFMonitor::new();
    monitor.record(&call(2, 0, 400, 0));
    monitor.record(&record);
    assert_eq!(monitor.get(2).unwrap().avg_duration_ns, 100);
    assert_eq!(monitor.get(2).unwrap().count, 2);
}

#[test]
fn midpoint_of_large_values_stays_exact() {
    assert_eq!(midpoint(u64::MAX, u64::MAX), u64::MAX);
    assert_eq!(midpoint(u64::MAX, 0), u64::MAX / 2);
    assert_eq!(midpoint(3, 4), 3);
    assert_eq!(midpoint(3, 5), 4);
    assert_eq!(midpoint(0, 0), 0);
}

#[test]
fn errors_never_outnumber_calls() {
    let mut monitor = EBPFMonitor::new();
    let codes: [i64; 8] = [-1, 0, -13, -2, 5, i64::MIN, 0, -1];
    let mut errors = 0;
    for (seen, code) in codes.iter().enumerate() {
        monitor.record(&call(11, 0, 10, *code));
        if *code < 0 {
            errors += 1;
        }
        let now = monitor.get(11).unwrap();
        assert_eq!(now.count, seen as u64 + 1);
        assert_eq!(now.error_count, errors);
        assert!(now.error_count <= now.count);
    }
}

#[test]
fn alert_is_raised_above_the_threshold_only() {
    let mut monitor = EBPFMonitor::new();
    let mut last = None;
    for _ in 0..1000 {
        last = monitor.record(&call(9, 0, 400_000_000, -1));
        assert_eq!(last, None);
    }
    assert_eq!(monitor.get(9).unwrap().suspicious_score, 700);
    assert!(last.is_none());
    let alert = monitor.record(&call(9, 0, 400_000_000, -1));
    assert_eq!(alert, Some(Alert { syscall_id: 9, score: 1000 }));
    assert!(alert.unwrap().score > ALERT_THRESHOLD);
}

#[test]
fn classes_are_counted_apart() {
    let mut monitor = EBPFMonitor::new();
    monitor.record(&call(1, 0, 10, 0));
    monitor.record(&call(2, 0, 10, -1));
    monitor.record(&call(1, 0, 10, 0));
    assert_eq!(monitor.get(1).unwrap().count, 2);
    assert_eq!(monitor.get(2).unwrap().count, 1);
    assert_eq!(monitor.get(2).unwrap().error_count, 1);
    assert_eq!(monitor.get(2).unwrap().suspicious_score, 400);
    assert_eq!(monitor.get(3), None);
}

#[test]
fn snapshot_taken_twice_is_equal() {
    let mut monitor = EBPFMonitor::new();
    for id in 0..40u32 {
        monitor.record(&call(id, 0, id as u64 * 1000, if id % 3 == 0 { -1 } else { 0 }));
    }
    let first = monitor.snapshot();
    let second = monitor.snapshot();
    assert_eq!(first, second);
    assert_eq!(first.len(), 40);
}

#[test]
fn snapshot_holds_every_class_and_is_a_copy() {
    let mut monitor = EBPFMonitor::new();
    assert_eq!(monitor.snapshot(), HashMap::new());
    monitor.record(&call(5, 0, 20, 0));
    monitor.record(&call(6, 0, 40, -1));
    let before = monitor.snapshot();
    let mut expected = HashMap::new();
    expected.insert(
        5u32,
        SyscallStat { count: 1, error_count: 0, avg_duration_ns: 10, suspicious_score: 0 },
    );
    expected.insert(
        6u32,
        SyscallStat { count: 1, error_count: 1, avg_duration_ns: 20, suspicious_score: 400 },
    );
    assert_eq!(before, expected);
    monitor.record(&call(5, 0, 20, 0));
    assert_eq!(before, expected);
    assert_ne!(monitor.snapshot(), before);
}

#[test]
fn peak_score_is_the_highest_of_the_window() {
    let mut monitor = EBPFMonitor::new();
    monitor.record(&call(1, 0, 10, 0));
    monitor.record(&call(2, 0, 10, -1));
    monitor.record(&call(3, 0, 900_000_000, -1));
    assert_eq!(monitor.peak_score(&[]), 0);
    assert_eq!(monitor.peak_score(&[1]), 0);
    assert_eq!(monitor.peak_score(&[1, 2]), 400);
    assert_eq!(monitor.peak_score(&[3, 1, 2]), 700);
    assert_eq!(monitor.peak_score(&[77]), 0);
}

#[test]
fn short_sample_is_refused() {
    assert_eq!(decode_sample(&[]), None);
    assert_eq!(decode_sample(&[0u8; 15]), None);
}

#[test]
fn sample_is_read_in_native_order() {
    let mut data = Vec::new();
    data.extend_from_slice(&4242u32.to_ne_bytes());
    data.extend_from_slice(&59u32.to_ne_bytes());
    data.extend_from_slice(&1_500_000_000u64.to_ne_bytes());
    assert_eq!(
        decode_sample(&data),
        Some(PerfSample { pid: 4242, syscall_id: 59, duration_ns: 1_500_000_000 })
    );
    data.extend_from_slice(&[9, 9, 9, 9]);
    assert_eq!(
        decode_sample(&data),
        Some(PerfSample { pid: 4242, syscall_id: 59, duration_ns: 1_500_000_000 })
    );
}

#[test]
fn sample_becomes_a_successful_record() {
    let sample = PerfSample { pid: 8, syscall_id: 1, duration_ns: 700 };
    let record = sample.to_record();
    assert_eq!(
        record,
        TraceRecord { pid: 8, syscall_id: 1, start_ts: 0, end_ts: 700, return_code: 0 }
    );
    assert_eq!(record.duration(), 700);
}

#[test]
fn blank_statistics_are_zero() {
    assert_eq!(
        SyscallStat::new(),
        SyscallStat { count: 0, error_count: 0, avg_duration_ns: 0, suspicious_score: 0 }
    );
    let next = SyscallStat::new().update(&call(1, 5, 25, -1));
    assert_eq!(
        next,
        SyscallStat { count: 1, error_count: 1, avg_duration_ns: 10, suspicious_score: 400 }
    );
}
