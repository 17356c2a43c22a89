use block_crawler::block::{HeaderError, RawExtension, RawHeader, VerifiedBlock};
use block_crawler::crawler::{CrawlAction, CrawlEvent, CrawlMode, CrawlState, Crawler};
use block_crawler::matrix::Partition;
use block_crawler::metrics::{CrawlMetricValue, SuccessRate};

fn header_with_extension(number: u32, rows: u16, cols: u16) -> RawHeader {
    RawHeader {
        number,
        extension: Some(RawExtension { rows, cols }),
    }
}

fn no_wait_crawler(mode: CrawlMode, partition: Option<Partition>) -> Crawler {
    Crawler::new(0, mode, partition)
}

fn header_update(header: RawHeader) -> CrawlEvent {
    CrawlEvent::HeaderUpdate {
        header,
        elapsed_ms: 0,
    }
}

#[test]
fn cells_cycle_with_full_retrieval_scores_one() {
    // Block #100, partition 1/1, mode Cells: a 5x4 matrix extends to
    // 40 cells; all 40 come back.
    let crawler = no_wait_crawler(CrawlMode::Cells, None);
    let header = header_with_extension(100, 5, 4);
    let block = VerifiedBlock::try_from_header(&header).unwrap();

    let t1 = crawler.step(CrawlState::WaitingForEvent, header_update(header));
    assert!(t1.metrics.is_empty());
    let positions = match &t1.action {
        CrawlAction::FetchCells {
            block_number,
            positions,
        } => {
            assert_eq!(*block_number, 100);
            positions.clone()
        }
        _ => panic!("expected a cell fetch"),
    };
    assert_eq!(positions.len(), 40);

    let t2 = crawler.step(t1.next, CrawlEvent::CellsFetched { fetched: 40 });
    assert_eq!(
        t2.metrics,
        vec![CrawlMetricValue::CellsSuccessRate(
            SuccessRate::new(40, 40).unwrap()
        )]
    );
    let rate = SuccessRate::new(40, 40).unwrap();
    assert_eq!(rate.fetched as f64 / rate.total as f64, 1.0);
    match &t2.action {
        CrawlAction::Forward { block: forwarded } => assert_eq!(*forwarded, block),
        _ => panic!("expected the block to be forwarded"),
    }

    let t3 = crawler.step(t2.next, CrawlEvent::ForwardResult { delivered: true });
    assert!(t3.metrics.is_empty());
    assert_eq!(t3.next, CrawlState::WaitingForEvent);
}

#[test]
fn cells_cycle_with_partial_retrieval_scores_a_quarter() {
    // Same block; 10 of 40 positions come back.
    let crawler = no_wait_crawler(CrawlMode::Cells, None);
    let header = header_with_extension(100, 5, 4);

    let t1 = crawler.step(CrawlState::WaitingForEvent, header_update(header));
    let t2 = crawler.step(t1.next, CrawlEvent::CellsFetched { fetched: 10 });
    let rate = SuccessRate::new(10, 40).unwrap();
    assert_eq!(t2.metrics, vec![CrawlMetricValue::CellsSuccessRate(rate)]);
    assert_eq!(rate.fetched as f64 / rate.total as f64, 0.25);
}

#[test]
fn cells_mode_emits_no_row_metric_and_fetches_no_rows() {
    let crawler = no_wait_crawler(CrawlMode::Cells, None);
    let header = header_with_extension(7, 2, 2);

    let t1 = crawler.step(CrawlState::WaitingForEvent, header_update(header));
    assert!(matches!(t1.action, CrawlAction::FetchCells { .. }));
    let t2 = crawler.step(t1.next, CrawlEvent::CellsFetched { fetched: 3 });
    assert!(matches!(t2.action, CrawlAction::Forward { .. }));
    for metric in t1.metrics.iter().chain(t2.metrics.iter()) {
        assert!(!matches!(metric, CrawlMetricValue::RowsSuccessRate(_)));
    }
    assert_eq!(t2.metrics.len(), 1);
    assert!(matches!(
        t2.metrics[0],
        CrawlMetricValue::CellsSuccessRate(_)
    ));
}

#[test]
fn both_mode_emits_exactly_one_cells_and_one_rows_metric() {
    let crawler = no_wait_crawler(CrawlMode::Both, None);
    let header = header_with_extension(9, 2, 3);
    // 2x3 extends to 4x3 = 12 cells; rows plan is [0, 2].

    let t1 = crawler.step(CrawlState::WaitingForEvent, header_update(header));
    let t2 = crawler.step(t1.next, CrawlEvent::CellsFetched { fetched: 12 });
    let row_indices = match &t2.action {
        CrawlAction::FetchRows { row_indices, .. } => row_indices.clone(),
        _ => panic!("expected a row fetch after cells in mode Both"),
    };
    assert_eq!(row_indices, vec![0, 2]);
    let rows: Vec<Option<Vec<u8>>> = vec![Some(vec![1u8]), None];
    let t3 = crawler.step(t2.next, CrawlEvent::RowsFetched { rows });
    assert!(matches!(t3.action, CrawlAction::Forward { .. }));
    let t4 = crawler.step(t3.next, CrawlEvent::ForwardResult { delivered: true });

    let mut all = Vec::new();
    all.extend(t1.metrics);
    all.extend(t2.metrics);
    all.extend(t3.metrics);
    all.extend(t4.metrics);
    assert_eq!(
        all,
        vec![
            CrawlMetricValue::CellsSuccessRate(SuccessRate::new(12, 12).unwrap()),
            CrawlMetricValue::RowsSuccessRate(SuccessRate::new(1, 2).unwrap()),
        ]
    );
}

#[test]
fn rows_mode_plans_rows_first_and_emits_no_cells_metric() {
    let crawler = no_wait_crawler(CrawlMode::Rows, None);
    let header = header_with_extension(3, 2, 2);

    let t1 = crawler.step(CrawlState::WaitingForEvent, header_update(header));
    assert!(matches!(t1.action, CrawlAction::FetchRows { .. }));
    let rows: Vec<Option<Vec<u8>>> = vec![Some(vec![0u8]), Some(vec![0u8])];
    let t2 = crawler.step(t1.next, CrawlEvent::RowsFetched { rows });
    assert_eq!(
        t2.metrics,
        vec![CrawlMetricValue::RowsSuccessRate(
            SuccessRate::new(2, 2).unwrap()
        )]
    );
}

#[test]
fn unparsable_header_yields_no_metrics_no_forward_and_a_live_loop() {
    let crawler = no_wait_crawler(CrawlMode::Cells, None);
    let bad = header_with_extension(5, 0, 4);
    assert_eq!(
        VerifiedBlock::try_from_header(&bad),
        Err(HeaderError::InvalidDimensions { rows: 0, cols: 4 })
    );

    let zero_cols = header_with_extension(5, 4, 0);
    assert_eq!(
        VerifiedBlock::try_from_header(&zero_cols),
        Err(HeaderError::InvalidDimensions { rows: 4, cols: 0 })
    );

    let t = crawler.step(CrawlState::WaitingForEvent, header_update(bad));
    assert!(t.metrics.is_empty());
    assert!(matches!(t.action, CrawlAction::AwaitEvent));
    assert_eq!(t.next, CrawlState::WaitingForEvent);

    // The machine still handles the next, valid header.
    let good = header_with_extension(6, 1, 1);
    let t2 = crawler.step(t.next, header_update(good));
    assert!(matches!(t2.action, CrawlAction::FetchCells { .. }));
}

#[test]
fn block_without_extension_is_skipped_and_not_forwarded() {
    let crawler = no_wait_crawler(CrawlMode::Cells, None);
    let header = RawHeader {
        number: 11,
        extension: None,
    };
    let block = VerifiedBlock::try_from_header(&header).unwrap();
    assert_eq!(block.extension, None);

    let t = crawler.step(CrawlState::WaitingForEvent, header_update(header));
    assert!(t.metrics.is_empty());
    assert!(matches!(t.action, CrawlAction::AwaitEvent));
    assert_eq!(t.next, CrawlState::WaitingForEvent);
}

#[test]
fn failed_forward_is_swallowed_and_the_loop_continues() {
    let crawler = no_wait_crawler(CrawlMode::Cells, None);
    let header = header_with_extension(12, 1, 1);

    let t1 = crawler.step(CrawlState::WaitingForEvent, header_update(header));
    let t2 = crawler.step(t1.next, CrawlEvent::CellsFetched { fetched: 2 });
    // Nobody is subscribed downstream: delivery fails.
    let t3 = crawler.step(t2.next, CrawlEvent::ForwardResult { delivered: false });
    assert!(t3.metrics.is_empty());
    assert!(matches!(t3.action, CrawlAction::AwaitEvent));
    assert_eq!(t3.next, CrawlState::WaitingForEvent);
}

#[test]
fn other_events_are_ignored_while_waiting() {
    let crawler = no_wait_crawler(CrawlMode::Cells, None);
    let t = crawler.step(CrawlState::WaitingForEvent, CrawlEvent::OtherEvent);
    assert!(t.metrics.is_empty());
    assert!(matches!(t.action, CrawlAction::AwaitEvent));
    assert_eq!(t.next, CrawlState::WaitingForEvent);
}

#[test]
fn pacing_delays_sampling_and_records_the_wait_in_seconds() {
    // 20 s of delay, 2.5 s already elapsed: sleep 17.5 s, then record
    // a 17-second block delay before sampling starts.
    let crawler = Crawler::new(20, CrawlMode::Cells, None);
    let header = header_with_extension(44, 1, 1);
    let t1 = crawler.step(
        CrawlState::WaitingForEvent,
        CrawlEvent::HeaderUpdate {
            header,
            elapsed_ms: 2500,
        },
    );
    assert!(t1.metrics.is_empty());
    assert!(matches!(t1.action, CrawlAction::Sleep { wait_ms: 17500 }));

    let t2 = crawler.step(t1.next, CrawlEvent::SleepDone);
    assert_eq!(t2.metrics, vec![CrawlMetricValue::BlockDelay(17)]);
    assert!(matches!(t2.action, CrawlAction::FetchCells { .. }));
}

#[test]
fn empty_partition_slice_emits_no_cells_metric() {
    // 1x1 extends to 2 cells; slice 3 of 3 is empty, so the rate is
    // undefined and no metric is emitted.
    let crawler = no_wait_crawler(
        CrawlMode::Cells,
        Some(Partition {
            number: 3,
            fraction: 3,
        }),
    );
    let header = header_with_extension(13, 1, 1);
    let t1 = crawler.step(CrawlState::WaitingForEvent, header_update(header));
    match &t1.action {
        CrawlAction::FetchCells { positions, .. } => assert!(positions.is_empty()),
        _ => panic!("expected a cell fetch"),
    }
    let t2 = crawler.step(t1.next, CrawlEvent::CellsFetched { fetched: 0 });
    assert!(t2.metrics.is_empty());
    assert!(matches!(t2.action, CrawlAction::Forward { .. }));
}

#[test]
fn crawler_new_converts_seconds_and_defaults_to_the_whole_block() {
    let crawler = Crawler::new(20, CrawlMode::Both, None);
    assert_eq!(crawler.delay.0, Some(20000));
    assert_eq!(crawler.mode, CrawlMode::Both);
    assert_eq!(
        crawler.partition,
        Partition {
            number: 1,
            fraction: 1
        }
    );
}
