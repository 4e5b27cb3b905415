use rustcost::metrics::adapters::{month_file_key, year_file_key, MetricContainerDayFsAdapter, MetricPodDayFsAdapter, MetricPodHourFsAdapter};
use rustcost::metrics::aggregate::{container_sums_within_range, total_within_range, increase_of, max_present_of, sum_present_of, total_of, AggregateError};
use rustcost::metrics::container_entity::MetricContainerEntity;
use rustcost::metrics::partition::{file_stem_and_extension, is_day_file_expired, is_hour_file_expired, months_between, years_between};
use rustcost::metrics::pod_entity::MetricPodEntity;
use rustcost::metrics::repositories::{
    MetricContainerDayRepository, MetricContainerHourRepository, MetricContainerMinuteRepository, MetricNodeDayRepository,
    MetricNodeHourRepository, MetricNodeMinuteRepository, MetricPodDayRepository, MetricPodHourRepository,
    MetricPodMinuteRepository,
};
use rustcost::metrics::row::{format_row, page_rows, parse_row, sort_rows};
use rustcost::time::UtcTime;

fn at(secs: i64) -> UtcTime {
    UtcTime { secs, nanos: 0 }
}

fn pod_sample(secs: i64, cpu: Option<u64>) -> MetricPodEntity {
    MetricPodEntity {
        time: at(secs),
        cpu_usage_nano_cores: cpu,
        cpu_usage_core_nano_seconds: Some(1000),
        memory_usage_bytes: None,
        memory_working_set_bytes: Some(7),
        memory_rss_bytes: None,
        memory_page_faults: None,
        network_physical_rx_bytes: Some(0),
        network_physical_tx_bytes: None,
        network_physical_rx_errors: None,
        network_physical_tx_errors: None,
        es_used_bytes: None,
        es_capacity_bytes: None,
        es_inodes_used: None,
        es_inodes: None,
        pv_used_bytes: None,
        pv_capacity_bytes: None,
        pv_inodes_used: None,
        pv_inodes: Some(u64::MAX),
    }
}

#[test]
fn pod_row_round_trip() {
    let r = pod_sample(1_704_164_645, Some(250));
    let line = format_row(&r).unwrap();
    assert!(line.starts_with("2024-01-02T03:04:05+00:00|250|1000||7|"));
    assert!(line.ends_with("|18446744073709551615\n"));
    let back: Option<MetricPodEntity> = parse_row(19, line.trim_end_matches('\n'));
    assert_eq!(back, Some(r));
    let adapter = MetricPodDayFsAdapter;
    assert_eq!(adapter.row_line(&r), Some(line));
    assert_eq!(MetricPodDayFsAdapter::opt(None), "");
    assert_eq!(MetricPodHourFsAdapter::opt(Some(12)), "12");
}

#[test]
fn row_with_wrong_field_count_or_time_is_skipped() {
    let short: Option<MetricPodEntity> = parse_row(19, "2024-01-02T03:04:05+00:00|1|2");
    assert_eq!(short, None);
    let bad_time: Option<MetricPodEntity> = parse_row(19, &format!("yesterday{}", "|".repeat(18)));
    assert_eq!(bad_time, None);
    let junk = format!("2024-01-02T03:04:05+00:00|x{}", "|".repeat(17));
    let parsed: MetricPodEntity = parse_row(19, &junk).unwrap();
    assert_eq!(parsed.cpu_usage_nano_cores, None);
}

#[test]
fn sorting_is_stable_by_time_and_paging_cuts() {
    let rows = vec![pod_sample(30, Some(1)), pod_sample(10, Some(2)), pod_sample(30, Some(3)), pod_sample(20, Some(4))];
    let sorted = sort_rows(&rows);
    let cpus: Vec<Option<u64>> = sorted.iter().map(|r| r.cpu_usage_nano_cores).collect();
    assert_eq!(cpus, vec![Some(2), Some(4), Some(1), Some(3)]);
    let page = page_rows(&sorted, Some(2), Some(1));
    assert_eq!(page.iter().map(|r| r.time.secs).collect::<Vec<_>>(), vec![20, 30]);
    assert!(page_rows(&sorted, None, Some(9)).is_empty());
}

#[test]
fn column_reductions() {
    let vs = vec![Some(10), None, Some(15), Some(3), Some(8)];
    assert_eq!(increase_of(&vs), Some(5 + 3 + 5));
    assert_eq!(increase_of(&vec![Some(4), None]), None);
    assert_eq!(sum_present_of(&vs), Some(36));
    assert_eq!(sum_present_of(&vec![None]), None);
    assert_eq!(max_present_of(&vs), Some(15));
    assert_eq!(total_of(&vec![Some(1), None, Some(2)]), 3);
}

#[test]
fn aggregating_nothing_is_an_error() {
    let adapter = MetricPodDayFsAdapter;
    let gauges = vec![None; 18];
    assert_eq!(adapter.aggregate(&vec![], at(0), &gauges), Err(AggregateError::NoSamples));
    let day = adapter.aggregate(&vec![pod_sample(10, Some(5))], at(99), &gauges).unwrap();
    assert_eq!(day.time, at(99));
    let c = MetricContainerDayFsAdapter;
    assert_eq!(c.aggregate(&vec![], at(0)), Err(AggregateError::NoSamples));
}

#[test]
fn file_keys_and_expiry() {
    assert_eq!(year_file_key(2024), Some("2024".to_string()));
    assert_eq!(month_file_key(2024, 3), Some("2024-03".to_string()));
    assert_eq!(years_between(2022, 2024), vec![2022, 2023, 2024]);
    assert_eq!(months_between(2023, 11, 2024, 2), vec![(2023, 11), (2023, 12), (2024, 1), (2024, 2)]);
    assert_eq!(file_stem_and_extension("2024.rcd"), ("2024".to_string(), Some("rcd".to_string())));
    assert_eq!(file_stem_and_extension(".hidden"), (".hidden".to_string(), None));
    assert!(is_day_file_expired("2022.rcd", 2024));
    assert!(!is_day_file_expired("2024.rcd", 2024));
    assert!(!is_day_file_expired("2022.txt", 2024));
    assert!(is_hour_file_expired("2024-01.rcd", 2024, 3));
    assert!(!is_hour_file_expired("2024-13.rcd", 2025, 1));
    let adapter = MetricPodDayFsAdapter;
    assert_eq!(adapter.is_expired("2020.rcd", at(1_704_164_645)), Some(true));
    let hour = MetricPodHourFsAdapter;
    assert_eq!(hour.is_expired("2023-12.rcd", at(1_704_164_645)), Some(true));
    assert_eq!(hour.is_expired("2024-01.rcd", at(1_704_164_645)), Some(false));
}

#[test]
fn container_rows() {
    let r = MetricContainerEntity {
        time: at(1_704_164_645),
        cpu_usage_nano_cores: Some(1),
        cpu_usage_core_nano_seconds: None,
        memory_usage_bytes: Some(2),
        memory_working_set_bytes: None,
        memory_rss_bytes: None,
        memory_page_faults: None,
        fs_used_bytes: None,
        fs_capacity_bytes: None,
        fs_inodes_used: None,
        fs_inodes: None,
    };
    let c = MetricContainerDayFsAdapter;
    let line = c.row_line(&r).unwrap();
    assert_eq!(line, "2024-01-02T03:04:05+00:00|1||2|||||||\n");
    assert_eq!(c.file_key_for(at(1_704_164_645)), Some("2024".to_string()));
}

#[test]
fn metric_repositories_build() {
    let _ = MetricNodeDayRepository::new();
    let _ = MetricNodeHourRepository::new();
    let _ = MetricNodeMinuteRepository::new();
    let _ = MetricPodDayRepository::new();
    let _ = MetricPodHourRepository::new();
    let _ = MetricPodMinuteRepository::new();
    let _ = MetricContainerDayRepository::new();
    let _ = MetricContainerHourRepository::new();
    let _ = MetricContainerMinuteRepository::new();
}

#[test]
fn container_sums_range_check() {
    let row = |v: u64| MetricContainerEntity {
        time: at(1_704_164_645),
        cpu_usage_nano_cores: Some(v),
        cpu_usage_core_nano_seconds: Some(u64::MAX),
        memory_usage_bytes: None,
        memory_working_set_bytes: None,
        memory_rss_bytes: None,
        memory_page_faults: None,
        fs_used_bytes: None,
        fs_capacity_bytes: None,
        fs_inodes_used: None,
        fs_inodes: None,
    };
    assert!(container_sums_within_range(&vec![row(1), row(2)]));
    assert!(container_sums_within_range(&vec![row(u64::MAX)]));
    assert!(!container_sums_within_range(&vec![row(u64::MAX), row(1)]));
    assert!(container_sums_within_range::<MetricContainerEntity>(&vec![]));
    assert!(total_within_range(&vec![Some(u64::MAX - 1), None, Some(1)]));
    assert!(!total_within_range(&vec![Some(u64::MAX), Some(1)]));
}

#[test]
fn stored_line_reads_back_at_whole_seconds() {
    let mut r = pod_sample(1_704_164_645, Some(250));
    r.time = UtcTime { secs: 1_704_164_645, nanos: 750_000_000 };
    let line = format_row(&r).unwrap();
    let back: Option<MetricPodEntity> = parse_row(19, line.trim_end_matches('\n'));
    let mut expected = r.clone();
    expected.time = UtcTime { secs: 1_704_164_645, nanos: 0 };
    assert_eq!(back, Some(expected));
}
