use aleo_tools::block::{Block, PartialSolution, PreviousBlockState};
use aleo_tools::message::Message;
use aleo_tools::reward::{parse_block, RewardError};

fn solution(address: &str, nonce: u64, target: u64) -> PartialSolution {
    PartialSolution {
        address: String::from(address),
        nonce,
        commitment: format!("commitment-{nonce}"),
        proof_target: target,
    }
}

fn block(height: u32, round: u32, solutions: Vec<PartialSolution>) -> Block {
    Block {
        height,
        round,
        timestamp: 1_700_000_000 + height as i64,
        previous_hash: format!("hash-{}", height.wrapping_sub(1)),
        last_coinbase_timestamp: 1_700_000_000,
        solutions,
    }
}

fn previous(height: u32, round: u32) -> PreviousBlockState {
    PreviousBlockState {
        height,
        round,
        timestamp: 1_700_000_000 + height as i64,
        last_coinbase_timestamp: 1_699_999_900,
    }
}

#[test]
fn two_solution_split_example() {
    let b = block(11, 21, vec![solution("apple", 1, 300), solution("banana", 2, 700)]);
    let out = parse_block(&b, &previous(10, 20), 1000, &vec![], false).unwrap();
    assert_eq!(out.total_reward, 500);
    assert_eq!(out.solutions_num, 2);
    assert_eq!(out.events.len(), 3);
    match &out.events[0] {
        Message::Solution(s) => {
            assert_eq!(s.address, "apple");
            assert_eq!(s.solution_reward, 150);
            assert_eq!(s.block_height, 11);
        }
        other => panic!("expected a solution message, got {other:?}"),
    }
    match &out.events[1] {
        Message::Solution(s) => {
            assert_eq!(s.address, "banana");
            assert_eq!(s.solution_reward, 350);
        }
        other => panic!("expected a solution message, got {other:?}"),
    }
    match &out.events[2] {
        Message::SyncHeight(s) => assert_eq!(s.height, 11),
        other => panic!("expected a sync-height message, got {other:?}"),
    }
}

#[test]
fn empty_block_emits_only_height_advance() {
    let b = block(11, 21, vec![]);
    let out = parse_block(&b, &previous(10, 20), 1000, &vec![], true).unwrap();
    assert_eq!(out.total_reward, 0);
    assert_eq!(out.solutions_num, 0);
    assert_eq!(out.events.len(), 1);
    match &out.events[0] {
        Message::SyncHeight(s) => assert_eq!(s.height, 11),
        other => panic!("expected a sync-height message, got {other:?}"),
    }
}

#[test]
fn height_discontinuity_is_fatal() {
    let b = block(12, 21, vec![]);
    let r = parse_block(&b, &previous(10, 20), 1000, &vec![], false);
    assert_eq!(r.unwrap_err(), RewardError::HeightDiscontinuity);
}

#[test]
fn round_discontinuity_is_fatal() {
    let b = block(11, 22, vec![]);
    let r = parse_block(&b, &previous(10, 20), 1000, &vec![], false);
    assert_eq!(r.unwrap_err(), RewardError::RoundDiscontinuity);
}

#[test]
fn zero_cumulative_target_is_fatal() {
    let b = block(11, 21, vec![solution("apple", 1, 0), solution("banana", 2, 0)]);
    let r = parse_block(&b, &previous(10, 20), 1000, &vec![], false);
    assert_eq!(r.unwrap_err(), RewardError::ZeroCumulativeTarget);
}

#[test]
fn allow_list_filters_solution_events() {
    let b = block(11, 21, vec![solution("apple", 1, 300), solution("banana", 2, 700)]);
    let allow = vec![String::from("banana")];
    let out = parse_block(&b, &previous(10, 20), 1000, &allow, true).unwrap();
    // Both provers are paid in the total, but only the tracked one is recorded.
    assert_eq!(out.total_reward, 500);
    assert_eq!(out.events.len(), 3);
    match &out.events[0] {
        Message::Solution(s) => {
            assert_eq!(s.address, "banana");
            assert_eq!(s.solution_reward, 350);
        }
        other => panic!("expected a solution message, got {other:?}"),
    }
    match &out.events[1] {
        Message::BlockReward(m) => {
            assert_eq!(m.block_reward, 500);
            assert_eq!(m.solutions_num, 2);
            assert_eq!(m.block.height, 11);
        }
        other => panic!("expected a block-reward message, got {other:?}"),
    }
    match &out.events[2] {
        Message::SyncHeight(s) => assert_eq!(s.height, 11),
        other => panic!("expected a sync-height message, got {other:?}"),
    }
}

#[test]
fn no_match_means_no_block_detail() {
    let b = block(11, 21, vec![solution("apple", 1, 300)]);
    let allow = vec![String::from("nobody")];
    let out = parse_block(&b, &previous(10, 20), 1000, &allow, true).unwrap();
    assert_eq!(out.total_reward, 500);
    assert_eq!(out.events.len(), 1);
    assert!(matches!(&out.events[0], Message::SyncHeight(_)));
}

#[test]
fn single_solution_receives_half_rounded_down() {
    let b = block(11, 21, vec![solution("apple", 1, 5)]);
    let out = parse_block(&b, &previous(10, 20), 1001, &vec![], false).unwrap();
    assert_eq!(out.total_reward, 500);
}

#[test]
fn conservation_with_flooring_losses() {
    let b = block(
        11,
        21,
        vec![solution("a", 1, 1), solution("b", 2, 2), solution("c", 3, 3)],
    );
    let out = parse_block(&b, &previous(10, 20), 999, &vec![], false).unwrap();
    // floor(999/12) + floor(1998/12) + floor(2997/12) = 83 + 166 + 249.
    assert_eq!(out.total_reward, 498);
    assert!(out.total_reward <= 999 / 2);
}

#[test]
fn largest_coinbase_reward_does_not_wrap() {
    let b = block(11, 21, vec![solution("apple", 1, 7)]);
    let out = parse_block(&b, &previous(10, 20), u64::MAX, &vec![], false).unwrap();
    assert_eq!(out.total_reward, u64::MAX / 2);
}
