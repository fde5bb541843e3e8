use aleo_tools::batch::Batch;
use aleo_tools::block::Block;
use aleo_tools::cursor::{decode_height, encode_height};
use aleo_tools::manage::ApiManage;
use aleo_tools::message::{handle, BlockReward, HandleOutcome, Message, SyncHeight};
use aleo_tools::message::Solution;
use aleo_tools::server::Response;
use aleo_tools::single::{Single, TailAction};
use aleo_tools::storage::{Reward, Storage, StorageError, Store};
use aleo_tools::utils::{backoffset, log_progress, parse_u32};

fn block(height: u32, round: u32) -> Block {
    Block {
        height,
        round,
        timestamp: 1_700_000_000 + height as i64,
        previous_hash: format!("hash-{}", height.wrapping_sub(1)),
        last_coinbase_timestamp: 1_700_000_000,
        solutions: vec![],
    }
}

fn solution_message(height: u32) -> Message {
    Message::Solution(Solution {
        block_height: height,
        address: String::from("apple"),
        nonce: 7,
        commitment: String::from("commitment-7"),
        solution_reward: 150,
        timestamp: 1_700_000_123,
    })
}

struct AcceptingStore;

impl Storage for AcceptingStore {
    fn new(_url: String) -> Self {
        AcceptingStore
    }

    fn record_block(&self, _block: &BlockReward) -> Result<bool, StorageError> {
        Ok(true)
    }

    fn record_solutions(&self, _solution: &Solution) -> Result<bool, StorageError> {
        Ok(true)
    }

    fn get_solutions_by_time_range(
        &self,
        _address: &String,
        _begin: i64,
        _end: i64,
    ) -> Result<Vec<Reward>, StorageError> {
        Ok(vec![])
    }
}

struct RefusingStore;

impl Storage for RefusingStore {
    fn new(_url: String) -> Self {
        RefusingStore
    }

    fn record_block(&self, _block: &BlockReward) -> Result<bool, StorageError> {
        Err(StorageError { message: String::from("backend down") })
    }

    fn record_solutions(&self, _solution: &Solution) -> Result<bool, StorageError> {
        Err(StorageError { message: String::from("backend down") })
    }

    fn get_solutions_by_time_range(
        &self,
        _address: &String,
        _begin: i64,
        _end: i64,
    ) -> Result<Vec<Reward>, StorageError> {
        Err(StorageError { message: String::from("backend down") })
    }
}

#[test]
fn cursor_encodes_little_endian() {
    let bytes = encode_height(123_456);
    assert_eq!(bytes, vec![0x40, 0xE2, 0x01, 0x00]);
    assert_eq!(decode_height(&bytes), 123_456);
}

#[test]
fn cursor_round_trips_at_the_edges() {
    for h in [0u32, 1, u32::MAX - 1, u32::MAX] {
        assert_eq!(decode_height(&encode_height(h)), h);
    }
}

#[test]
fn height_advance_yields_cursor_bytes() {
    let store: Store<AcceptingStore> = Store::new(String::from("memory:"));
    let msg = Message::SyncHeight(SyncHeight { height: 77 });
    match handle(&store, &msg) {
        HandleOutcome::Continue(Some(bytes)) => assert_eq!(bytes, encode_height(77)),
        other => panic!("expected cursor bytes, got {other:?}"),
    }
}

#[test]
fn record_messages_do_not_touch_the_cursor() {
    let store: Store<AcceptingStore> = Store::new(String::from("memory:"));
    match handle(&store, &solution_message(11)) {
        HandleOutcome::Continue(None) => {}
        other => panic!("expected a plain continue, got {other:?}"),
    }
}

#[test]
fn sink_failure_stops_the_dispatcher() {
    let store: Store<RefusingStore> = Store::new(String::from("memory:"));
    match handle(&store, &solution_message(11)) {
        HandleOutcome::Stop(e) => assert_eq!(e.message, "backend down"),
        other => panic!("expected a crash-stop, got {other:?}"),
    }
}

#[test]
fn endpoints_rotate_to_the_back() {
    let mut m = ApiManage::new(vec![
        String::from("http://one"),
        String::from("http://two"),
        String::from("http://three"),
    ]);
    assert_eq!(m.len(), 3);
    assert_eq!(m.front(), "http://one");
    m.rotate();
    assert_eq!(m.front(), "http://two");
    m.rotate();
    m.rotate();
    assert_eq!(m.front(), "http://one");
    assert_eq!(m.len(), 3);
}

#[test]
fn a_single_endpoint_rotates_to_itself() {
    let mut m = ApiManage::new(vec![String::from("http://only")]);
    m.rotate();
    assert_eq!(m.front(), "http://only");
}

#[test]
fn backoff_doubles_and_caps() {
    let p = backoffset();
    assert_eq!(p.max_interval_ms, 15_000);
    assert_eq!(p.max_elapsed_ms, 60_000);
    assert_eq!(p.next_delay(0, 0), Some(50));
    assert_eq!(p.next_delay(1, 0), Some(100));
    assert_eq!(p.next_delay(3, 0), Some(400));
    assert_eq!(p.next_delay(8, 0), Some(12_800));
    assert_eq!(p.next_delay(9, 0), Some(15_000));
    assert_eq!(p.next_delay(40, 0), Some(15_000));
}

#[test]
fn backoff_budget_exhaustion_rotates() {
    let p = backoffset();
    assert_eq!(p.next_delay(2, 59_999), Some(200));
    assert_eq!(p.next_delay(2, 60_000), None);
    assert_eq!(p.next_delay(0, u64::MAX), None);
}

#[test]
fn progress_report_arithmetic() {
    let p = log_progress(1000, 50, 0, 100, 10);
    assert_eq!(p.percentage, 50);
    assert_eq!(p.files_done, 6);
    assert_eq!(p.files_remaining, 6);
    assert_eq!(p.millis_per_file, 166);
    assert_eq!(p.time_remaining_millis, 6 * 166 + 600);
    assert_eq!(p.minutes_remaining, 0);
}

#[test]
fn parse_u32_accepts_plain_numerals() {
    assert_eq!(parse_u32(b"123"), Some(123));
    assert_eq!(parse_u32(b"+42"), Some(42));
    assert_eq!(parse_u32(b"0042"), Some(42));
    assert_eq!(parse_u32(b"0"), Some(0));
    assert_eq!(parse_u32(b"4294967295"), Some(u32::MAX));
}

#[test]
fn parse_u32_rejects_malformed_and_oversized() {
    assert_eq!(parse_u32(b""), None);
    assert_eq!(parse_u32(b"+"), None);
    assert_eq!(parse_u32(b"12a"), None);
    assert_eq!(parse_u32(b"-1"), None);
    assert_eq!(parse_u32(b" 1"), None);
    assert_eq!(parse_u32(b"4294967296"), None);
    assert_eq!(parse_u32(b"99999999999999999999"), None);
}

#[test]
fn message_kinds_name_themselves() {
    assert_eq!(solution_message(1).name(), "solution");
    let br = Message::BlockReward(BlockReward { block: block(5, 5), solutions_num: 0, block_reward: 0 });
    assert_eq!(br.name(), "block_reward");
    assert_eq!(Message::SyncHeight(SyncHeight { height: 5 }).name(), "sync_height");
}

#[test]
fn success_response_envelope() {
    let r = Response::success(vec![1u32, 2, 3]);
    assert_eq!(r.code, 0);
    assert_eq!(r.message, "success");
    assert_eq!(r.data, vec![1, 2, 3]);
}

#[test]
fn restart_resumes_above_the_persisted_cursor() {
    // A cursor persisted at height 500 is read back ...
    let cursor_bytes = encode_height(500);
    let resumed = decode_height(&cursor_bytes);
    assert_eq!(resumed, 500);

    // ... the batch phase fetches from the cursor's own window but emits
    // nothing for any height at or below it ...
    let mut b = Batch::new(resumed, None, vec![], 10, 2, false);
    b.plan(560).unwrap();
    assert_eq!(b.window_range(0), (500, 510));
    assert!(b.store_window(0, (500..510).map(|h| block(h, h)).collect()));
    let w = b.next_ready().unwrap();
    let mut emitted_heights = Vec::new();
    for blk in &w {
        for event in b.process_block(blk, 1000).unwrap() {
            match event {
                Message::SyncHeight(m) => emitted_heights.push(m.height),
                other => panic!("unexpected message {other:?}"),
            }
        }
    }
    assert_eq!(emitted_heights, (501..510).collect::<Vec<_>>());
    assert_eq!(b.finish().unwrap(), 509);

    // ... and the live tail seeds at the cursor and first fetches just
    // above it, never a height at or below the cursor.
    let mut s = Single::new(resumed, vec![], false, 10);
    assert_eq!(s.next_action(560), TailAction::FetchSeed(500));
    s.seed(&block(500, 500)).unwrap();
    assert_eq!(s.next_action(560), TailAction::FetchNext(501));
}
