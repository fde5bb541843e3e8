//! The durable height cursor: a single `u32`, persisted as exactly four
//! little-endian bytes. The value on disk is always a height that was fully
//! processed, never one merely fetched.

use vstd::bytes::{
    lemma_auto_spec_u32_to_from_le_bytes, spec_u32_from_le_bytes, spec_u32_to_le_bytes,
    u32_from_le_bytes, u32_to_le_bytes,
};
use vstd::prelude::*;

verus! {

/// The number of bytes the cursor occupies in its backing store.
pub const CURSOR_BYTES: usize = 4;

/// Encodes a fully-processed height as the four little-endian bytes that
/// overwrite the cursor's backing store.
pub fn encode_height(height: u32) -> (b: Vec<u8>)
    ensures
        b@ == spec_u32_to_le_bytes(height),
        b@.len() == CURSOR_BYTES,
{
    u32_to_le_bytes(height)
}

/// Reads the cursor back from its four-byte backing store.
pub fn decode_height(b: &[u8]) -> (height: u32)
    requires
        b@.len() == CURSOR_BYTES,
    ensures
        height == spec_u32_from_le_bytes(b@),
{
    u32_from_le_bytes(b)
}

/// A height written to the cursor store is read back unchanged, and four
/// stored bytes are reproduced exactly by re-encoding the height they denote.
pub proof fn lemma_cursor_round_trip(height: u32, stored: Seq<u8>)
    ensures
        spec_u32_from_le_bytes(spec_u32_to_le_bytes(height)) == height,
        stored.len() == CURSOR_BYTES ==> spec_u32_to_le_bytes(spec_u32_from_le_bytes(stored))
            == stored,
{
    lemma_auto_spec_u32_to_from_le_bytes();
    assert(spec_u32_to_le_bytes(height).len() == 4);
}

} // verus!
