use wezterm_parallel::performance::{PerformanceConfig, PerformanceManager};
use std::sync::Arc;
use wezterm_parallel::metrics::{get_metrics_file_path, history_window, MetricsConfig, PerformanceTracker};
use wezterm_parallel::performance::async_opt::{
    AsyncTask, DatabaseTask, FileProcessingTask, TaskPriority,
};
use wezterm_parallel::performance::memory::{
    memory_status, next_power_of_two, MemoryMonitor, MemoryPool, MemoryStatus, StringInterner,
};

#[test]
fn memory_test_memory_pool() {
    let mut pool = MemoryPool::new(4);

    let buffer1 = pool.allocate(1024);
    assert!(buffer1.capacity() >= 1024);

    let buffer2 = pool.allocate(2048);
    assert!(buffer2.capacity() >= 2048);

    pool.deallocate(buffer1);
    pool.deallocate(buffer2);

    let stats = pool.get_stats();
    assert_eq!(stats.total_allocated, stats.total_deallocated);
}

#[test]
fn test_string_interner() {
    let mut interner = StringInterner::new();

    let s1 = interner.intern("hello");
    let s2 = interner.intern("hello");
    let s3 = interner.intern("world");

    assert_eq!(&*s1, "hello");
    assert_eq!(&*s2, "hello");
    assert_eq!(&*s3, "world");

    assert!(Arc::ptr_eq(&s1, &s2));

    let (count, hits, misses) = interner.get_counts();
    let hit_rate = if hits + misses > 0 {
        hits as f64 / (hits + misses) as f64 * 100.0
    } else {
        0.0
    };
    assert_eq!(count, 2);
    assert_eq!(hits, 1);
    assert_eq!(misses, 2);
    assert!((hit_rate - 33.333333333333336).abs() < 1e-10);
}

#[test]
fn next_power_of_two_values() {
    assert_eq!(next_power_of_two(0), 1);
    assert_eq!(next_power_of_two(1), 1);
    assert_eq!(next_power_of_two(3), 4);
    assert_eq!(next_power_of_two(1024), 1024);
    assert_eq!(next_power_of_two(1025), 2048);
}

#[test]
fn pool_reuses_returned_buffers() {
    let mut pool = MemoryPool::new(2);
    let b = pool.allocate(1000);
    assert!(b.is_empty());
    pool.deallocate(b);
    let stats = pool.get_stats();
    assert_eq!(stats.total_allocated, 1024);
    assert_eq!(stats.pooled_buffers, 1);
    assert_eq!(stats.peak_usage, 1024);
    let again = pool.allocate(900);
    assert!(again.capacity() >= 900);
    let stats = pool.get_stats();
    assert_eq!(stats.pooled_buffers, 0);
    assert_eq!(stats.active_allocation, 1024);
    pool.deallocate(again);
    pool.cleanup();
    assert_eq!(pool.get_stats().pooled_buffers, 0);
}

#[test]
fn tracker_counts_and_sorts() {
    let mut t = PerformanceTracker::new();
    t.record(Some(30), false);
    t.record(Some(10), true);
    t.record(None, false);
    t.record(Some(20), false);
    assert_eq!(t.counts(), (4, 1));
    assert_eq!(t.sorted_response_times(), vec![10, 20, 30]);
    t.reset();
    assert_eq!(t.counts(), (0, 0));
    assert!(t.sorted_response_times().is_empty());
    assert!(t.start_time() > 0);
}

#[test]
fn tracker_drops_oldest_half_when_full() {
    let mut t = PerformanceTracker::new();
    for i in 0..1001u64 {
        t.record(Some(i), false);
    }
    let sorted = t.sorted_response_times();
    assert_eq!(sorted.len(), 501);
    assert_eq!(sorted[0], 500);
    assert_eq!(sorted[500], 1000);
}

#[test]
fn metrics_paths_by_hour() {
    assert_eq!(get_metrics_file_path("system", 7300), "system/metrics_7200.json");
    assert_eq!(get_metrics_file_path("system", 7199), "system/metrics_3600.json");
    assert_eq!(history_window(10, Some(3)), (7, 10));
    assert_eq!(history_window(2, Some(3)), (0, 2));
    assert_eq!(history_window(5, None), (0, 5));
    let c = MetricsConfig::default();
    assert_eq!(c.collection_interval, 5);
    assert_eq!(c.retention_hours, 24);
}

#[test]
fn task_priorities() {
    let f = FileProcessingTask::new("/tmp/a".to_string(), "critical".to_string());
    assert_eq!(f.priority(), TaskPriority::Critical);
    assert_eq!(f.task_type(), "file_processing");
    let f = FileProcessingTask::new("/tmp/a".to_string(), "read".to_string());
    assert_eq!(f.priority(), TaskPriority::Low);
    let d = DatabaseTask::new("select 1".to_string(), TaskPriority::High);
    assert_eq!(d.priority(), TaskPriority::High);
    assert_eq!(d.task_type(), "database_operation");
    assert_eq!(d.estimated_duration().as_nanos_u64(), 30_000_000);
    assert_eq!(f.estimated_duration().as_nanos_u64(), 50_000_000);
}

#[test]
fn tracker_started_at_a_given_time() {
    let t = PerformanceTracker::started_at(1234);
    assert_eq!(t.start_time(), 1234);
    assert_eq!(t.counts(), (0, 0));
    assert!(t.sorted_response_times().is_empty());
}


#[test]
fn test_performance_manager_creation() {
    let config = PerformanceConfig::default();
    let manager = PerformanceManager::new(config, 1_000);

    assert_eq!(
        manager.get_metrics().startup_time.debug_text(),
        format!("{:?}", std::time::Duration::from_secs(0))
    );
    assert_eq!(manager.pool_len(), 8);
}

#[test]
fn mod_test_memory_pool() {
    let config = PerformanceConfig::default();
    let mut manager = PerformanceManager::new(config, 1_000);

    let buffer = manager.get_buffer(1024);
    assert!(buffer.capacity() >= 1024);

    manager.return_buffer(buffer);
    assert_eq!(manager.pool_len(), 8);
}

#[test]
fn test_cache_operations() {
    let config = PerformanceConfig::default();
    let mut manager = PerformanceManager::new(config, 1_000);

    assert!(manager.get_cached("test").is_none());
    assert_eq!(manager.get_metrics().cache_misses, 1);

    manager.cache_data("test".to_string(), vec![1, 2, 3]);

    let data = manager.get_cached("test");
    assert!(data.is_some());
    assert_eq!(data.unwrap(), vec![1, 2, 3]);
    assert_eq!(manager.get_metrics().cache_hits, 1);
}

#[test]
fn memory_and_task_counters() {
    let mut manager = PerformanceManager::new(PerformanceConfig::default(), 0);
    manager.update_memory_usage(1024 * 1024, 10);
    manager.update_active_tasks(5);
    manager.update_memory_usage(512, 20);
    let m = manager.get_metrics();
    assert_eq!(m.memory_usage, 512);
    assert_eq!(m.peak_memory, 1024 * 1024);
    assert_eq!(m.active_tasks, 5);
    assert_eq!(m.gc_runs, 0);
    manager.record_startup_complete(1_500);
    assert_eq!(manager.get_metrics().startup_time.debug_text(), "1.5s");
}

#[test]
fn cache_drops_oldest_when_full() {
    let mut manager = PerformanceManager::new(PerformanceConfig::default(), 0);
    for i in 0..100u8 {
        manager.cache_data(format!("k{}", i), vec![i]);
    }
    manager.cache_data("new".to_string(), vec![200]);
    assert!(manager.get_cached("k0").is_none());
    assert_eq!(manager.get_cached("k1"), Some(vec![1]));
    assert_eq!(manager.get_cached("new"), Some(vec![200]));
}

#[test]
fn clean_up_keeps_small_entries_and_respects_the_gap() {
    let mut config = PerformanceConfig::default();
    config.memory_limit_mb = 1;
    let mut manager = PerformanceManager::new(config, 0);
    manager.cache_data("small".to_string(), vec![1, 2, 3]);
    manager.cache_data("big".to_string(), vec![0; 4096]);

    manager.trigger_gc(30_000);
    assert_eq!(manager.get_metrics().gc_runs, 0);
    assert!(manager.get_cached("big").is_some());

    manager.update_memory_usage(2 * 1024 * 1024, 61_000);
    assert_eq!(manager.get_metrics().gc_runs, 1);
    assert!(manager.get_cached("big").is_none());
    assert_eq!(manager.get_cached("small"), Some(vec![1, 2, 3]));

    manager.periodic_gc(200_000);
    assert_eq!(manager.get_metrics().gc_runs, 1);
    manager.periodic_gc(61_000 + 300_000);
    assert_eq!(manager.get_metrics().gc_runs, 2);
    assert_eq!(manager.pool_len(), 8);
}

#[test]
fn test_memory_monitor() {
    let mut monitor = MemoryMonitor::new(512, 0);
    let status = monitor.check_memory_usage(0, 100 * 1024 * 1024);
    assert!(matches!(status, MemoryStatus::Normal | MemoryStatus::Warning));
}

#[test]
fn test_memory_report() {
    let monitor = MemoryMonitor::new(256, 0);
    let report = monitor.generate_memory_report("0.0");
    assert!(report.contains("メモリ使用量レポート"));
    assert!(report.contains("メモリプール"));
    assert!(report.contains("文字列インターナー"));
}

#[test]
fn memory_status_levels() {
    assert_eq!(memory_status(100, 100), MemoryStatus::Warning);
    assert_eq!(memory_status(101, 100), MemoryStatus::Critical);
    assert_eq!(memory_status(81, 100), MemoryStatus::Warning);
    assert_eq!(memory_status(80, 100), MemoryStatus::Normal);
    assert_eq!(memory_status(0, 0), MemoryStatus::Normal);
    assert_eq!(memory_status(1, 0), MemoryStatus::Critical);
}

#[test]
fn monitor_checks_only_after_the_interval() {
    let mut monitor = MemoryMonitor::new(1, 1_000);
    assert!(!monitor.due_for_check(30_999));
    assert!(monitor.due_for_check(31_000));
    assert!(!monitor.due_for_check(500));
    assert_eq!(monitor.check_memory_usage(2_000, 10 * 1024 * 1024), MemoryStatus::Normal);
    assert_eq!(monitor.check_memory_usage(31_000, 2 * 1024 * 1024), MemoryStatus::Critical);
    assert!(!monitor.due_for_check(31_001));
    assert_eq!(monitor.check_memory_usage(61_000, 900 * 1024), MemoryStatus::Warning);
    assert_eq!(monitor.check_memory_usage(91_000, 100), MemoryStatus::Normal);
}

#[test]
fn monitor_estimate_and_report_counts() {
    let monitor = MemoryMonitor::new(8, 0);
    assert_eq!(monitor.estimate_memory_usage(), 0);
    let report = monitor.generate_memory_report("12.5");
    assert!(report.starts_with("=== メモリ使用量レポート ===\nメモリプール:\n- 確保済み: 0MB\n"));
    assert!(report.contains("\n- プールバッファ: 0\n\n文字列インターナー:\n"));
    assert!(report.ends_with("- ミス: 0\n- ヒット率: 12.5%"));
    assert_eq!(monitor.get_memory_pool().get_stats().pool_count, 0);
    assert_eq!(monitor.get_string_interner().get_counts(), (0, 0, 0));
}

use wezterm_parallel::performance::async_opt::{AsyncTaskPool, QueuedTask};

#[test]
fn test_async_task_pool() {
    let mut pool = AsyncTaskPool::new(2);
    let task1 = FileProcessingTask::new("test1.txt".to_string(), "normal".to_string());
    let task2 = DatabaseTask::new("SELECT * FROM test".to_string(), TaskPriority::High);

    let started = pool.submit_task(QueuedTask { id: 1, priority: task1.priority() });
    assert_eq!(started.map(|t| t.id), Some(1));
    pool.finish_task(Some(1_000));
    let started = pool.submit_task(QueuedTask { id: 2, priority: task2.priority() });
    assert_eq!(started.map(|t| t.id), Some(2));
    pool.finish_task(Some(3_000));

    assert!(pool.is_drained());
    let stats = pool.get_stats();
    assert_eq!(stats.total_tasks, 2);
    assert_eq!(stats.completed_tasks, 2);
    assert_eq!(stats.average_execution_time.debug_text(), "2µs");
}

#[test]
fn pool_queues_by_priority_then_submission() {
    let mut pool = AsyncTaskPool::new(1);
    let first = pool.submit_task(QueuedTask { id: 1, priority: TaskPriority::Low });
    assert_eq!(first.map(|t| t.id), Some(1));
    assert!(pool.submit_task(QueuedTask { id: 2, priority: TaskPriority::Normal }).is_none());
    assert!(pool.submit_task(QueuedTask { id: 3, priority: TaskPriority::Critical }).is_none());
    assert!(pool.submit_task(QueuedTask { id: 4, priority: TaskPriority::Normal }).is_none());
    assert_eq!(pool.get_stats().current_queue_size, 3);
    pool.finish_task(None);
    assert_eq!(pool.get_stats().failed_tasks, 1);
    let next = pool.submit_task(QueuedTask { id: 5, priority: TaskPriority::Low });
    assert_eq!(next.map(|t| t.id), Some(3));
    pool.finish_task(Some(10));
    assert_eq!(pool.submit_task(QueuedTask { id: 6, priority: TaskPriority::High }).map(|t| t.id), Some(6));
    assert!(!pool.is_drained());
    assert_eq!(pool.get_stats().current_queue_size, 3);
}

use wezterm_parallel::error::TimeSpan;
use wezterm_parallel::performance::async_opt::BatchProcessor;

#[test]
fn test_batch_processor() {
    let mut processor: BatchProcessor<i32> = BatchProcessor::new(3, TimeSpan::from_millis(100));
    assert!(processor.add_item(1).is_none());
    assert!(processor.add_item(2).is_none());
    let batch = processor.add_item(3).expect("a full batch");
    assert_eq!(batch.len(), 3);
    assert!(processor.stop().is_none());
}

#[test]
fn batches_flush_what_has_gathered() {
    let mut processor: BatchProcessor<&str> = BatchProcessor::new(10, TimeSpan::from_millis(50));
    assert!(processor.flush().is_none());
    processor.add_item("a");
    processor.add_item("b");
    assert_eq!(processor.flush(), Some(vec!["a", "b"]));
    assert!(processor.flush().is_none());
    processor.add_item("c");
    assert_eq!(processor.stop(), Some(vec!["c"]));
    assert_eq!(processor.flush_interval().debug_text(), "50ms");
}

#[test]
fn pool_stats_when_they_can_be_counted() {
    let mut pool = MemoryPool::new(4);
    let b = pool.allocate(100);
    let s = pool.try_get_stats().unwrap();
    assert_eq!(s.total_allocated, 128);
    assert_eq!(s.total_deallocated, 0);
    assert_eq!(s.active_allocation, 128);
    drop(b);
    let big: Vec<u8> = Vec::with_capacity(4096);
    pool.deallocate(big);
    assert!(pool.try_get_stats().is_none());
}
