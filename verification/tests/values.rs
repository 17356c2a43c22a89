use block_crawler::crawler::{CrawlConfig, CrawlMode};
use block_crawler::metrics::{CrawlMetricValue, Origin, Record, SuccessRate};
use block_crawler::pacing::Delay;

#[test]
fn success_rate_is_fetched_over_total_in_unit_interval() {
    let rate = SuccessRate::new(10, 40).unwrap();
    assert_eq!(rate.fetched, 10);
    assert_eq!(rate.total, 40);
    let ratio = rate.fetched as f64 / rate.total as f64;
    assert_eq!(ratio, 0.25);
    assert!((0.0..=1.0).contains(&ratio));
}

#[test]
fn success_rate_with_zero_total_is_undefined_and_skipped() {
    assert_eq!(SuccessRate::new(0, 0), None);
    assert_eq!(SuccessRate::new(7, 0), None);
}

#[test]
fn success_rate_clips_excess_fetched_to_total() {
    let rate = SuccessRate::new(9, 4).unwrap();
    assert_eq!(rate.fetched, 4);
    assert_eq!(rate.total, 4);
}

#[test]
fn metric_names_are_fixed() {
    let rate = SuccessRate::new(1, 2).unwrap();
    assert_eq!(
        CrawlMetricValue::CellsSuccessRate(rate).name(),
        "avail.light.crawl.cells_success_rate"
    );
    assert_eq!(
        CrawlMetricValue::RowsSuccessRate(rate).name(),
        "avail.light.crawl.rows_success_rate"
    );
    assert_eq!(
        CrawlMetricValue::BlockDelay(20).name(),
        "avail.light.crawl.block_delay"
    );
}

#[test]
fn crawl_metrics_are_internal_only() {
    let value = CrawlMetricValue::BlockDelay(3);
    assert!(value.is_allowed(&Origin::Internal));
    assert!(!value.is_allowed(&Origin::External));
}

#[test]
fn records_carry_the_metric_name_and_value() {
    let rate = SuccessRate::new(3, 4).unwrap();
    assert_eq!(
        Record::from(CrawlMetricValue::CellsSuccessRate(rate)),
        Record::AvgRatio("avail.light.crawl.cells_success_rate", rate)
    );
    assert_eq!(
        Record::from(CrawlMetricValue::RowsSuccessRate(rate)),
        Record::AvgRatio("avail.light.crawl.rows_success_rate", rate)
    );
    assert_eq!(
        Record::from(CrawlMetricValue::BlockDelay(21)),
        Record::AvgSeconds("avail.light.crawl.block_delay", 21)
    );
}

#[test]
fn default_config_crawls_nothing_with_cells_mode() {
    let config = CrawlConfig::default();
    assert!(!config.crawl_block);
    assert_eq!(config.crawl_block_delay, 20);
    assert_eq!(config.crawl_block_mode, CrawlMode::Cells);
    assert_eq!(config.crawl_block_matrix_partition, None);
}

#[test]
fn pacing_gate_waits_out_the_remaining_delay() {
    let delay = Delay(Some(5000));
    assert_eq!(delay.sleep_duration(2000), Some(3000));
    assert_eq!(delay.sleep_duration(0), Some(5000));
}

#[test]
fn pacing_gate_never_waits_once_the_delay_has_elapsed() {
    let delay = Delay(Some(5000));
    assert_eq!(delay.sleep_duration(5000), None);
    assert_eq!(delay.sleep_duration(60000), None);
    assert_eq!(Delay(None).sleep_duration(0), None);
}
