//! The meaning of a block's bytes.
//!
//! A block stores the payload followed by one zero byte. Readers do not keep
//! the payload's length: they take the bytes up to the first zero, as a C
//! string is read. A payload that holds a zero of its own is therefore seen
//! cut short at that zero.

use vstd::prelude::*;

verus! {

/// The byte that ends a string.
pub const NUL: u8 = 0;

/// The number of bytes of `bytes` that stand before its first zero byte,
/// or its whole length where it holds none.
pub open spec fn nul_position(bytes: Seq<u8>) -> int
    decreases bytes.len(),
{
    if bytes.len() == 0 || bytes[0] == NUL {
        0
    } else {
        1 + nul_position(bytes.drop_first())
    }
}

/// The bytes of `bytes` that stand before its first zero byte.
pub open spec fn until_nul(bytes: Seq<u8>) -> Seq<u8> {
    bytes.take(nul_position(bytes))
}

/// What a block that was filled from `payload` holds after its counter:
/// the payload, then the terminator.
pub open spec fn terminated(payload: Seq<u8>) -> Seq<u8> {
    payload.push(NUL)
}

/// `bytes` ends in a zero byte, so a scan for the terminator stays inside it.
pub open spec fn is_terminated(bytes: Seq<u8>) -> bool {
    bytes.len() > 0 && bytes.last() == NUL
}

/// The slice holds exactly these bytes.
pub open spec fn slice_holds(slice: &[u8], bytes: Seq<u8>) -> bool {
    slice@ == bytes
}

/// `nul_position` is the one index that has no zero before it and a zero, or
/// the end of the bytes, at it.
pub proof fn lemma_nul_position(bytes: Seq<u8>)
    ensures
        0 <= nul_position(bytes) <= bytes.len(),
        forall|i: int| 0 <= i < nul_position(bytes) ==> bytes[i] != NUL,
        nul_position(bytes) < bytes.len() ==> bytes[nul_position(bytes)] == NUL,
    decreases bytes.len(),
{
    if bytes.len() == 0 || bytes[0] == NUL {
    } else {
        let rest = bytes.drop_first();
        lemma_nul_position(rest);
        assert forall|i: int| 0 <= i < nul_position(bytes) implies bytes[i] != NUL by {
            if i > 0 {
                assert(bytes[i] == rest[i - 1]);
            }
        }
        if nul_position(bytes) < bytes.len() {
            assert(bytes[nul_position(bytes)] == rest[nul_position(rest)]);
        }
    }
}

/// An index with no zero before it and a zero, or the end, at it is
/// `nul_position`.
pub proof fn lemma_nul_position_unique(bytes: Seq<u8>, k: int)
    requires
        0 <= k <= bytes.len(),
        forall|i: int| 0 <= i < k ==> bytes[i] != NUL,
        k < bytes.len() ==> bytes[k] == NUL,
    ensures
        nul_position(bytes) == k,
{
    lemma_nul_position(bytes);
    let p = nul_position(bytes);
    if p < k {
        assert(bytes[p] != NUL);
    } else if k < p {
        assert(bytes[k] != NUL);
    }
}

/// The content never holds a zero byte.
pub proof fn lemma_until_nul_has_no_nul(bytes: Seq<u8>)
    ensures
        !until_nul(bytes).contains(NUL),
        until_nul(bytes).len() == nul_position(bytes),
{
    lemma_nul_position(bytes);
    let content = until_nul(bytes);
    assert forall|i: int| 0 <= i < content.len() implies content[i] != NUL by {
        assert(content[i] == bytes[i]);
    }
}

/// In bytes that end in a zero, a terminator is found, and the content
/// followed by one zero is the part of the bytes that readers see.
pub proof fn lemma_terminator_found(bytes: Seq<u8>)
    requires
        is_terminated(bytes),
    ensures
        0 <= nul_position(bytes) < bytes.len(),
        terminated(until_nul(bytes)) == bytes.take(nul_position(bytes) + 1),
{
    lemma_nul_position(bytes);
    let p = nul_position(bytes);
    if p == bytes.len() {
        assert(bytes[p - 1] != NUL);
    }
    assert(terminated(until_nul(bytes)) =~= bytes.take(p + 1));
}

/// Round trip: a payload with no zero byte of its own is read back whole
/// from the block that was filled from it, and what is read back with the
/// terminator is the block's bytes exactly.
pub proof fn lemma_round_trip(payload: Seq<u8>)
    requires
        !payload.contains(NUL),
    ensures
        until_nul(terminated(payload)) == payload,
        terminated(until_nul(terminated(payload))) == terminated(payload),
{
    let bytes = terminated(payload);
    assert forall|i: int| 0 <= i < payload.len() implies bytes[i] != NUL by {
        assert(bytes[i] == payload[i]);
        assert(payload.contains(payload[i]));
    }
    lemma_nul_position_unique(bytes, payload.len() as int);
    assert(until_nul(bytes) =~= payload);
}

/// A payload that holds a zero byte is read back cut short at its first
/// zero.
pub proof fn lemma_embedded_nul_truncates(payload: Seq<u8>)
    ensures
        until_nul(terminated(payload)) == until_nul(payload),
{
    lemma_nul_position(payload);
    let bytes = terminated(payload);
    let p = nul_position(payload);
    assert forall|i: int| 0 <= i < p implies bytes[i] != NUL by {
        assert(bytes[i] == payload[i]);
    }
    if p < payload.len() {
        assert(bytes[p] == payload[p]);
    }
    lemma_nul_position_unique(bytes, p);
    assert(until_nul(bytes) =~= until_nul(payload));
}

/// Finds the terminator: the index of the first zero byte of `bytes`, or
/// the length of `bytes` where it holds none.
pub fn find_nul(bytes: &[u8]) -> (position: usize)
    ensures
        position == nul_position(bytes@),
        position <= bytes@.len(),
{
    let mut i: usize = 0;
    while i < bytes.len() && bytes[i] != NUL
        invariant
            i <= bytes@.len(),
            forall|j: int| 0 <= j < i ==> bytes@[j] != NUL,
        decreases bytes@.len() - i,
    {
        i += 1;
    }
    proof {
        lemma_nul_position_unique(bytes@, i as int);
    }
    i
}

/// The part of `bytes` that stands before its first zero byte.
pub fn content_of(bytes: &[u8]) -> (content: &[u8])
    ensures
        content@ == until_nul(bytes@),
{
    let end = find_nul(bytes);
    vstd::slice::slice_subrange(bytes, 0, end)
}

/// Whether `bytes` holds a zero byte.
pub fn has_nul(bytes: &[u8]) -> (found: bool)
    ensures
        found == bytes@.contains(NUL),
{
    let position = find_nul(bytes);
    proof {
        lemma_nul_position(bytes@);
        if position < bytes@.len() {
            assert(bytes@[position as int] == NUL);
        }
    }
    position < bytes.len()
}

} // verus!
