use aleo_tools::block::Block;
use aleo_tools::message::Message;
use aleo_tools::reward::RewardError;
use aleo_tools::single::{Single, TailAction, TailError};

fn block(height: u32, round: u32) -> Block {
    Block {
        height,
        round,
        timestamp: 1_700_000_000 + height as i64,
        previous_hash: format!("hash-{}", height.wrapping_sub(1)),
        last_coinbase_timestamp: 1_700_000_000,
        solutions: vec![],
    }
}

#[test]
fn tail_sleeps_while_source_is_behind() {
    let s = Single::new(100, vec![], false, 10);
    assert_eq!(s.next_action(50), TailAction::Sleep);
}

#[test]
fn fork_avoidance_gate_holds_until_depth_clears() {
    let s = Single::new(100, vec![], false, 10);
    // Within the confirmation depth the tail keeps waiting.
    assert_eq!(s.next_action(100), TailAction::Sleep);
    assert_eq!(s.next_action(105), TailAction::Sleep);
    assert_eq!(s.next_action(110), TailAction::Sleep);
    // One block past the depth, fetching resumes.
    assert_eq!(s.next_action(111), TailAction::FetchSeed(100));
}

#[test]
fn first_fetch_seeds_at_the_cursor_itself() {
    let mut s = Single::new(100, vec![], false, 10);
    assert_eq!(s.next_action(120), TailAction::FetchSeed(100));
    s.seed(&block(100, 200)).unwrap();
    assert_eq!(s.next_action(120), TailAction::FetchNext(101));
}

#[test]
fn seed_must_match_the_cursor_height() {
    let mut s = Single::new(100, vec![], false, 10);
    assert_eq!(s.seed(&block(99, 199)).unwrap_err(), TailError::SeedHeightMismatch);
}

#[test]
fn processing_advances_one_height_at_a_time() {
    let mut s = Single::new(100, vec![], false, 10);
    s.seed(&block(100, 200)).unwrap();
    let events = s.process_next(&block(101, 201), 1000).unwrap();
    assert_eq!(events.len(), 1);
    match &events[0] {
        Message::SyncHeight(m) => assert_eq!(m.height, 101),
        other => panic!("expected a sync-height message, got {other:?}"),
    }
    assert_eq!(s.next_action(200), TailAction::FetchNext(102));
}

#[test]
fn failures_do_not_advance_the_tail() {
    let mut s = Single::new(100, vec![], false, 10);
    s.seed(&block(100, 200)).unwrap();
    let err = s.process_next(&block(105, 205), 1000).unwrap_err();
    assert_eq!(err, TailError::Reward(RewardError::HeightDiscontinuity));
    // The same next height is fetched again.
    assert_eq!(s.next_action(200), TailAction::FetchNext(101));
}

#[test]
fn processing_before_seeding_is_refused() {
    let mut s = Single::new(100, vec![], false, 10);
    assert_eq!(s.process_next(&block(101, 201), 1000).unwrap_err(), TailError::NotSeeded);
}

#[test]
fn configurable_confirmation_depth() {
    let s = Single::new(100, vec![], false, 3);
    assert_eq!(s.next_action(103), TailAction::Sleep);
    assert_eq!(s.next_action(104), TailAction::FetchSeed(100));
}
