use wezterm_parallel::metrics::storage::{
    cleanup_cutoff, file_timestamp, hourly_timestamps, in_time_range, should_remove, storage_stats,
    trim_cache, type_stats,
};

#[test]
fn test_cache_trimming() {
    let mut cache: Vec<u64> = Vec::new();
    for i in 0..1500u64 {
        cache.push(i);
        trim_cache(&mut cache);
    }
    assert!(cache.len() < 1500);
    assert!(cache.len() >= 500);
    assert_eq!(*cache.last().unwrap(), 1499);
}

#[test]
fn trimming_drops_the_oldest_half_past_the_limit() {
    let mut cache: Vec<u32> = (0..1001).collect();
    trim_cache(&mut cache);
    assert_eq!(cache.len(), 501);
    assert_eq!(cache[0], 500);
    let mut small: Vec<u32> = (0..1000).collect();
    trim_cache(&mut small);
    assert_eq!(small.len(), 1000);
}

#[test]
fn file_names_carry_their_hour() {
    assert_eq!(file_timestamp("metrics_7200.json"), Some(7200));
    assert_eq!(file_timestamp("metrics_.json"), None);
    assert_eq!(file_timestamp("metrics_12.json.old"), None);
    assert_eq!(file_timestamp("other_12.json"), None);
    assert_eq!(file_timestamp("metrics_x.json"), None);
    assert_eq!(file_timestamp("metrics_"), None);
}

#[test]
fn old_files_go() {
    assert_eq!(cleanup_cutoff(100_000, 24), 100_000 - 24 * 3600);
    assert_eq!(cleanup_cutoff(100, 1), 0);
    let cutoff = cleanup_cutoff(10 * 3600, 2);
    assert!(should_remove("metrics_3600.json", cutoff));
    assert!(!should_remove("metrics_28800.json", cutoff));
    assert!(!should_remove("notes.txt", cutoff));
}

#[test]
fn hours_of_a_range() {
    assert_eq!(hourly_timestamps(3599, 7200), vec![0, 3600, 7200]);
    assert_eq!(hourly_timestamps(3600, 3700), vec![3600]);
    assert!(hourly_timestamps(7200, 3600).is_empty());
    assert!(in_time_range(5, 5, 9));
    assert!(in_time_range(9, 5, 9));
    assert!(!in_time_range(10, 5, 9));
}

#[test]
fn storage_statistics_add_up() {
    let one = type_stats(&vec![10, 20, 30]);
    assert_eq!(one.file_count, 3);
    assert_eq!(one.total_size, 60);
    let kinds = vec![
        ("system".to_string(), vec![100u64, 50]),
        ("process".to_string(), vec![]),
        ("workspace".to_string(), vec![7]),
    ];
    let stats = storage_stats(&kinds, 42);
    assert_eq!(stats.total_files, 3);
    assert_eq!(stats.total_size, 157);
    assert_eq!(stats.cache_size, 42);
    assert_eq!(stats.metrics_by_type[0].0, "system");
    assert_eq!(stats.metrics_by_type[0].1.total_size, 150);
    assert_eq!(stats.metrics_by_type[1].1.file_count, 0);
}
