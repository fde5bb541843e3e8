use aleo_tools::batch::{Batch, BatchError};
use aleo_tools::block::Block;
use aleo_tools::message::Message;
use aleo_tools::reward::RewardError;

fn block(height: u32, round: u32) -> Block {
    Block {
        height,
        round,
        timestamp: 1_700_000_000 + height as i64,
        previous_hash: format!("hash-{}", height.wrapping_sub(1)),
        last_coinbase_timestamp: 1_700_000_000,
        solutions: vec![],
    }
}

fn fetcher(start: u32, end: Option<u32>, window: u32) -> Batch {
    Batch::new(start, end, vec![], window, 2, false)
}

#[test]
fn adjust_tip_applies_margin_and_rounding() {
    let b = fetcher(0, None, 10);
    assert_eq!(b.adjust_tip(105), 90);
    assert_eq!(b.adjust_tip(5), 0);
    assert_eq!(b.adjust_tip(10), 0);
    let b7 = fetcher(0, None, 7);
    assert_eq!(b7.adjust_tip(1000), 987);
}

#[test]
fn plan_rejects_tip_below_start() {
    let mut b = fetcher(100, None, 10);
    assert_eq!(b.plan(50).unwrap_err(), BatchError::StartBeyondTip);
}

#[test]
fn plan_rejects_end_below_start() {
    let mut b = fetcher(10, Some(5), 10);
    assert_eq!(b.plan(100).unwrap_err(), BatchError::EndBeforeStart);
}

#[test]
fn empty_range_is_already_complete() {
    let mut b = fetcher(40, None, 10);
    b.plan(40).unwrap();
    assert_eq!(b.window_count(), 0);
    assert_eq!(b.finish().unwrap(), 40);
}

#[test]
fn windows_partition_the_range() {
    let mut b = fetcher(0, None, 10);
    b.plan(25).unwrap();
    assert_eq!(b.window_count(), 3);
    assert_eq!(b.window_range(0), (0, 10));
    assert_eq!(b.window_range(1), (10, 20));
    assert_eq!(b.window_range(2), (20, 25));
}

#[test]
fn explicit_end_is_clamped_to_tip() {
    let mut b = fetcher(0, Some(100), 10);
    b.plan(30).unwrap();
    assert_eq!(b.window_count(), 3);
    assert_eq!(b.window_range(2), (20, 30));
}

#[test]
fn out_of_order_fetches_are_consumed_in_order() {
    let mut b = fetcher(10, None, 2);
    b.plan(16).unwrap();
    assert_eq!(b.window_count(), 3);

    // Window 1 finishes first: buffered, nothing released.
    assert!(b.store_window(1, vec![block(12, 22), block(13, 23)]));
    assert!(b.next_ready().is_none());

    // Window 0 arrives: windows 0 and then 1 are released, in that order.
    assert!(b.store_window(0, vec![block(10, 20), block(11, 21)]));
    let w0 = b.next_ready().unwrap();
    assert_eq!(w0.iter().map(|x| x.height).collect::<Vec<_>>(), vec![10, 11]);
    let w1 = b.next_ready().unwrap();
    assert_eq!(w1.iter().map(|x| x.height).collect::<Vec<_>>(), vec![12, 13]);
    assert!(b.next_ready().is_none());

    assert!(b.store_window(2, vec![block(14, 24), block(15, 25)]));
    let w2 = b.next_ready().unwrap();
    assert_eq!(w2.iter().map(|x| x.height).collect::<Vec<_>>(), vec![14, 15]);

    // Process everything: the heights handed to the engine ascend strictly.
    let mut processed = Vec::new();
    for blk in w0.iter().chain(w1.iter()).chain(w2.iter()) {
        let events = b.process_block(blk, 1000).unwrap();
        if blk.height != 10 {
            processed.push(blk.height);
            assert_eq!(events.len(), 1);
            match &events[0] {
                Message::SyncHeight(s) => assert_eq!(s.height, blk.height),
                other => panic!("expected a sync-height message, got {other:?}"),
            }
        } else {
            // The start block only seeds the carry.
            assert!(events.is_empty());
        }
    }
    assert_eq!(processed, vec![11, 12, 13, 14, 15]);
    assert_eq!(b.finish().unwrap(), 15);
}

#[test]
fn duplicate_and_stray_windows_are_ignored() {
    let mut b = fetcher(0, None, 10);
    b.plan(20).unwrap();
    assert!(b.store_window(0, vec![block(0, 0)]));
    assert!(!b.store_window(0, vec![block(0, 0)]));
    assert!(!b.store_window(5, vec![block(0, 0)]));
    b.next_ready().unwrap();
    assert!(!b.store_window(0, vec![block(0, 0)]));
}

#[test]
fn out_of_range_blocks_are_discarded() {
    let mut b = fetcher(10, None, 2);
    b.plan(14).unwrap();
    assert!(b.store_window(0, vec![block(9, 19), block(10, 20), block(11, 21), block(99, 99)]));
    let w = b.next_ready().unwrap();
    assert_eq!(w.iter().map(|x| x.height).collect::<Vec<_>>(), vec![10, 11]);
}

#[test]
fn fetch_failure_stops_consumption_and_keeps_first_error() {
    let mut b = fetcher(10, None, 2);
    b.plan(16).unwrap();
    assert!(b.store_window(0, vec![block(10, 20), block(11, 21)]));
    b.mark_fetch_failed();
    // In-flight results are discarded and nothing more is released.
    assert!(!b.store_window(1, vec![block(12, 22)]));
    assert!(b.next_ready().is_none());
    assert_eq!(b.finish().unwrap_err(), (10, BatchError::FetchFailed));
}

#[test]
fn engine_error_sets_the_failure_state() {
    let mut b = fetcher(10, None, 2);
    b.plan(16).unwrap();
    b.process_block(&block(10, 20), 1000).unwrap();
    let err = b.process_block(&block(13, 23), 1000).unwrap_err();
    assert_eq!(err, BatchError::Reward(RewardError::HeightDiscontinuity));
    // The failure is final: even a well-formed block is refused now.
    assert_eq!(
        b.process_block(&block(11, 21), 1000).unwrap_err(),
        BatchError::AlreadyFailed
    );
    assert_eq!(b.finish().unwrap_err(), (10, BatchError::Reward(RewardError::HeightDiscontinuity)));
}

#[test]
fn first_block_must_be_the_start_height() {
    let mut b = fetcher(10, None, 2);
    b.plan(16).unwrap();
    assert_eq!(
        b.process_block(&block(11, 21), 1000).unwrap_err(),
        BatchError::MissingPrevious
    );
}
