//! How a region is cut into the chunks that single commands carry.

use vstd::prelude::*;
use crate::wire::MAX_CHUNK;

verus! {

/// The length of the chunk that starts at `offset` in a region of `total`
/// bytes, when chunks hold up to `size` bytes: a whole chunk, or what is left
/// of the region.
pub open spec fn chunk_length(total: nat, offset: nat, size: nat) -> nat {
    if total - offset > size {
        size
    } else {
        (total - offset) as nat
    }
}

/// The number of chunks of up to `size` bytes that a region of `total` bytes
/// is cut into.
pub open spec fn chunk_count(total: nat, size: nat) -> nat {
    ((total + size - 1) / (size as int)) as nat
}

/// The chunk of `data` that starts at `offset`.
pub open spec fn chunk_at(data: Seq<u8>, offset: nat, size: nat) -> Seq<u8> {
    data.subrange(offset as int, (offset + chunk_length(data.len(), offset, size)) as int)
}

/// What the first `count` chunks of `data` hold, one after the other.
pub open spec fn joined_chunks(data: Seq<u8>, size: nat, count: nat) -> Seq<u8>
    decreases count,
{
    if count == 0 {
        Seq::empty()
    } else {
        joined_chunks(data, size, (count - 1) as nat) + chunk_at(
            data,
            ((count - 1) * size) as nat,
            size,
        )
    }
}

/// Chunks of any size tile the region: chunk `k` starts inside it, is neither
/// empty nor longer than `size`, and ends where chunk `k + 1` starts, or at
/// the end of the region if it is the last one.
pub proof fn lemma_chunks_tile(total: nat, size: nat, k: nat)
    requires
        0 < size,
        k < chunk_count(total, size),
    ensures
        k * size < total,
        0 < chunk_length(total, k * size, size) <= size,
        k + 1 < chunk_count(total, size) ==> k * size + chunk_length(total, k * size, size) == (k
            + 1) * size,
        k + 1 == chunk_count(total, size) ==> k * size + chunk_length(total, k * size, size)
            == total,
{
    let count = chunk_count(total, size);
    assert(count * size >= total && (count - 1) * size < total) by (nonlinear_arith)
        requires
            0 < size,
            count == (total + size - 1) / (size as int),
    ;
    assert(k * size <= (count - 1) * size) by (nonlinear_arith)
        requires
            k <= count - 1,
            0 < size,
    ;
    assert((k + 1) * size == k * size + size) by (nonlinear_arith);
    if k + 1 < count {
        assert((k + 1) * size <= (count - 1) * size) by (nonlinear_arith)
            requires
                k + 1 <= count - 1,
                0 < size,
        ;
    }
}

/// The first `count` chunks, joined, are the bytes of the region up to the
/// start of the next chunk.
pub proof fn lemma_joined_chunks_prefix(data: Seq<u8>, size: nat, count: nat)
    requires
        0 < size,
        count <= chunk_count(data.len(), size),
    ensures
        count < chunk_count(data.len(), size) ==> joined_chunks(data, size, count) == data.take(
            (count * size) as int,
        ),
        count == chunk_count(data.len(), size) ==> joined_chunks(data, size, count) == data,
    decreases count,
{
    if count == 0 {
        assert(0 * size == 0) by (nonlinear_arith);
        assert(data.take(0) == Seq::<u8>::empty());
        if chunk_count(data.len(), size) == 0 {
            assert(data.len() == 0) by (nonlinear_arith)
                requires
                    0 < size,
                    (data.len() + size - 1) / (size as int) == 0,
            ;
            assert(data == Seq::<u8>::empty());
        }
    } else {
        let k = (count - 1) as nat;
        lemma_joined_chunks_prefix(data, size, k);
        lemma_chunks_tile(data.len(), size, k);
        let start = (k * size) as int;
        let end = start + chunk_length(data.len(), k * size, size);
        assert(joined_chunks(data, size, k) == data.take(start));
        assert(data.take(start) + data.subrange(start, end) == data.take(end));
        if count == chunk_count(data.len(), size) {
            assert(data.take(end) == data);
        }
    }
}

/// Read in order of offset and joined, the chunks of a region give the region
/// back: nothing is left out and nothing is read twice.
pub proof fn lemma_chunks_reassemble(data: Seq<u8>, size: nat)
    requires
        0 < size,
    ensures
        joined_chunks(data, size, chunk_count(data.len(), size)) == data,
{
    lemma_joined_chunks_prefix(data, size, chunk_count(data.len(), size));
}

/// The length of the chunk of a command that starts at `offset`.
pub fn chunk_size(total: usize, offset: usize) -> (size: usize)
    requires
        offset <= total,
    ensures
        size == chunk_length(total as nat, offset as nat, MAX_CHUNK as nat),
        size <= MAX_CHUNK,
        offset + size <= total,
{
    let remaining = total - offset;
    if remaining > MAX_CHUNK {
        MAX_CHUNK
    } else {
        remaining
    }
}

} // verus!
