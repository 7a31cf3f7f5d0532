//! How many bytes a block takes.
//!
//! A block is the counter, one machine word, then the payload, then one
//! zero byte. Its size is counted once when the block is made, and once
//! more, from what a scan for the terminator finds, when it is given back.

use vstd::prelude::*;
use vstd::layout::size_of;
use crate::content::{until_nul, terminated, nul_position, NUL};
use crate::content::{lemma_round_trip, lemma_embedded_nul_truncates, lemma_nul_position};

verus! {

/// The bytes that the counter takes at the head of a block: as many as a
/// `usize`, which an atomic `usize` matches in size.
pub open spec fn header_bytes() -> nat {
    size_of::<usize>()
}

/// The bytes of a block behind its counter: the payload and the
/// terminator.
pub open spec fn tail_bytes(payload_len: nat) -> nat {
    payload_len + 1
}

/// The bytes of a block for a payload of `payload_len` bytes.
pub open spec fn block_bytes(payload_len: nat) -> nat {
    header_bytes() + tail_bytes(payload_len)
}

/// The counter takes four bytes or eight.
pub proof fn lemma_header_bytes()
    ensures
        header_bytes() == 4 || header_bytes() == 8,
        header_bytes() * 8 == usize::BITS,
{
    broadcast use vstd::layout::layout_of_primitives;

}

/// The bytes that the counter takes at the head of a block.
pub fn header_size() -> (size: usize)
    ensures
        size == header_bytes(),
{
    core::mem::size_of::<usize>()
}

/// The size of a block for a payload of `payload_len` bytes: `Some` of
/// `header + payload_len + 1` where that fits a `usize`, `None` where no
/// block of that size can exist.
pub fn block_size(payload_len: usize) -> (size: Option<usize>)
    ensures
        size == if block_bytes(payload_len as nat) <= usize::MAX {
            Some(block_bytes(payload_len as nat) as usize)
        } else {
            None::<usize>
        },
{
    let header = header_size();
    proof {
        lemma_header_bytes();
    }
    match payload_len.checked_add(1) {
        Some(tail) => tail.checked_add(header),
        None => None,
    }
}

/// The bytes to set aside behind the counter for a payload of
/// `payload_len` bytes, or zero where [`block_size`] finds no block to fit.
pub fn tail_size(payload_len: usize) -> (size: usize)
    ensures
        size == if block_bytes(payload_len as nat) <= usize::MAX {
            tail_bytes(payload_len as nat)
        } else {
            0
        },
{
    match block_size(payload_len) {
        Some(size) => size - header_size(),
        None => 0,
    }
}

/// A block is given back with the size that a scan of its bytes finds.
/// For a payload with no zero byte of its own that is the size the block
/// was made with.
pub proof fn lemma_size_found_again(payload: Seq<u8>)
    requires
        !payload.contains(NUL),
    ensures
        block_bytes(until_nul(terminated(payload)).len()) == block_bytes(payload.len()),
{
    lemma_round_trip(payload);
}

/// For a payload that holds a zero byte, the scan stops early: the size it
/// finds is smaller than the size the block was made with.
pub proof fn lemma_size_lost_to_embedded_nul(payload: Seq<u8>)
    requires
        payload.contains(NUL),
    ensures
        block_bytes(until_nul(terminated(payload)).len()) < block_bytes(payload.len()),
{
    lemma_embedded_nul_truncates(payload);
    lemma_nul_position(payload);
    let i = choose|i: int| 0 <= i < payload.len() && payload[i] == NUL;
    assert(nul_position(payload) <= i);
}

} // verus!
