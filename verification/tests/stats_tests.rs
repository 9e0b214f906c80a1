//! Tests for the statistics collector and the reporter.

use fastalloc::PoolStatistics;
use fastalloc::StatisticsCollector;
use fastalloc::StatisticsReporter;

#[test]
fn collector_tracks_allocations() {
    let mut collector = StatisticsCollector::new(100);

    collector.record_allocation();
    collector.record_allocation();
    collector.record_allocation();

    let stats = collector.snapshot();
    assert_eq!(stats.total_allocations, 3);
    assert_eq!(stats.current_usage, 3);
    assert_eq!(stats.peak_usage, 3);
}

#[test]
fn collector_tracks_deallocations() {
    let mut collector = StatisticsCollector::new(100);

    collector.record_allocation();
    collector.record_allocation();
    collector.record_deallocation();

    let stats = collector.snapshot();
    assert_eq!(stats.total_allocations, 2);
    assert_eq!(stats.total_deallocations, 1);
    assert_eq!(stats.current_usage, 1);
    assert_eq!(stats.peak_usage, 2);
}

#[test]
fn collector_tracks_failures() {
    let mut collector = StatisticsCollector::new(100);

    collector.record_failure();
    collector.record_failure();

    let stats = collector.snapshot();
    assert_eq!(stats.allocation_failures, 2);
}

#[test]
fn collector_tracks_growth() {
    let mut collector = StatisticsCollector::new(100);

    collector.record_growth(200);
    collector.record_growth(400);

    let stats = collector.snapshot();
    assert_eq!(stats.growth_count, 2);
    assert_eq!(stats.capacity, 400);
}

#[test]
fn collector_reset() {
    let mut collector = StatisticsCollector::new(100);

    collector.record_allocation();
    collector.record_allocation();
    collector.record_failure();

    collector.reset();

    let stats = collector.snapshot();
    assert_eq!(stats.total_allocations, 0);
    assert_eq!(stats.allocation_failures, 0);
    assert_eq!(stats.capacity, 100); // Capacity is preserved
}

#[test]
fn collector_reset_is_idempotent() {
    let mut once = StatisticsCollector::new(64);
    once.record_allocation();
    once.record_growth(128);
    let mut twice = StatisticsCollector::new(64);
    twice.record_allocation();
    twice.record_growth(128);

    once.reset();
    twice.reset();
    twice.reset();

    assert_eq!(once.snapshot(), twice.snapshot());
}

#[test]
fn statistics_available() {
    let stats = PoolStatistics { capacity: 100, current_usage: 30, ..PoolStatistics::new(100) };

    assert_eq!(stats.available(), 70);
}

#[test]
fn reporter_summary() {
    let stats = PoolStatistics {
        capacity: 100,
        current_usage: 50,
        total_allocations: 100,
        ..PoolStatistics::new(100)
    };

    let reporter = StatisticsReporter::new(stats);
    let summary = reporter.summary();

    assert!(summary.contains("Capacity:"));
    assert!(summary.contains("100"));
}

#[test]
fn reporter_compact_summary() {
    let stats = PoolStatistics {
        capacity: 100,
        current_usage: 25,
        total_allocations: 50,
        total_deallocations: 25,
        ..PoolStatistics::new(100)
    };

    let reporter = StatisticsReporter::new(stats);
    let compact = reporter.compact_summary();

    assert!(compact.contains("25/100"));
    assert!(compact.contains("Allocs: 50"));
}

#[test]
fn reporter_key_value_pairs() {
    let stats = PoolStatistics::new(100);
    let reporter = StatisticsReporter::new(stats);

    let pairs = reporter.as_key_value_pairs();
    assert!(!pairs.is_empty());

    // Check that capacity is present
    let capacity_pair = pairs.iter().find(|(k, _)| *k == "capacity");
    assert!(capacity_pair.is_some());
}

#[test]
fn reporter_exact_compact_line() {
    let stats = PoolStatistics {
        capacity: 4,
        current_usage: 1,
        total_allocations: 2,
        total_deallocations: 1,
        ..PoolStatistics::new(4)
    };
    let reporter = StatisticsReporter::new(stats);
    assert_eq!(
        reporter.compact_summary(),
        "Pool: 1/4 (25%) | Allocs: 2 | Deallocs: 1 | Failures: 0"
    );
}
