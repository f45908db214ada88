//! Cutting a payload into the pieces in which it is sent.

use vstd::prelude::*;
use vstd::slice::{slice_subrange, slice_to_vec};

verus! {

/// The number of bytes in every chunk but the last, which may hold fewer.
pub const CHUNK_SIZE: usize = 1024;

/// How many chunks a payload of `len` bytes makes: `len / 1024`, rounded up.
pub open spec fn chunk_count(len: nat) -> nat {
    (len + 1023) / 1024
}

/// Where the chunk that begins at `start` ends in a payload of `len` bytes.
pub open spec fn chunk_end(start: int, len: int) -> int {
    if start + 1024 <= len {
        start + 1024
    } else {
        len
    }
}

/// The chunk with index `i` of `data`.
pub open spec fn chunk(data: Seq<u8>, i: int) -> Seq<u8> {
    data.subrange(i * 1024, chunk_end(i * 1024, data.len() as int))
}

/// The first `n` chunks of `data`.
pub open spec fn first_chunks(data: Seq<u8>, n: nat) -> Seq<Seq<u8>> {
    Seq::new(n, |i: int| chunk(data, i))
}

/// The chunks of `data`, in order.
pub open spec fn chunked(data: Seq<u8>) -> Seq<Seq<u8>> {
    first_chunks(data, chunk_count(data.len()))
}

/// How many bytes the first `n` chunks of a payload of `len` bytes hold
/// together.
pub open spec fn covered(n: nat, len: nat) -> nat {
    if n * 1024 <= len {
        n * 1024
    } else {
        len
    }
}

/// The first `n` chunks of `data`, joined, are the bytes that `data` begins
/// with.
pub proof fn lemma_first_chunks_rejoin(data: Seq<u8>, n: nat)
    requires
        n <= chunk_count(data.len()),
    ensures
        first_chunks(data, n).flatten() == data.take(covered(n, data.len()) as int),
    decreases n,
{
    if n == 0 {
        assert(first_chunks(data, 0) =~= Seq::<Seq<u8>>::empty());
        assert(data.take(0) =~= Seq::<u8>::empty());
    } else {
        let before = first_chunks(data, (n - 1) as nat);
        let last = chunk(data, n - 1);
        lemma_first_chunks_rejoin(data, (n - 1) as nat);
        assert(first_chunks(data, n) =~= before.push(last));
        before.lemma_flatten_push(last);
        assert(covered((n - 1) as nat, data.len()) == (n - 1) * 1024);
        assert(data.take((n - 1) * 1024) + last =~= data.take(covered(n, data.len()) as int));
    }
}

/// Cutting and joining again gives the payload back, byte for byte, and the
/// number of chunks is the payload's length over 1024, rounded up.
pub proof fn lemma_chunks_rejoin(data: Seq<u8>)
    ensures
        chunked(data).len() == chunk_count(data.len()),
        chunked(data).flatten() == data,
{
    lemma_first_chunks_rejoin(data, chunk_count(data.len()));
    assert(data.take(data.len() as int) =~= data);
}

/// Every chunk holds 1024 bytes, but for the last, which holds what is left:
/// at least one byte and at most 1024.
pub proof fn lemma_chunk_sizes(data: Seq<u8>, i: int)
    requires
        0 <= i < chunk_count(data.len()),
    ensures
        i + 1 < chunk_count(data.len()) ==> chunk(data, i).len() == 1024,
        i + 1 == chunk_count(data.len()) ==> chunk(data, i).len() == data.len() - i * 1024,
        1 <= chunk(data, i).len() <= 1024,
{
}

/// Cuts `data` into chunks of 1024 bytes; the last holds what is left.
pub fn chunks(data: &Vec<u8>) -> (r: Vec<Vec<u8>>)
    ensures
        r.deep_view() == chunked(data@),
{
    let mut out: Vec<Vec<u8>> = Vec::new();
    let mut start: usize = 0;
    let len = data.len();
    assert(out.deep_view() =~= first_chunks(data@, 0));
    while start < len
        invariant
            len == data@.len(),
            start <= len,
            start % 1024 == 0 || start == len,
            start < len ==> out@.len() * 1024 == start,
            start == len ==> out@.len() == chunk_count(len as nat),
            out.deep_view() == first_chunks(data@, out@.len() as nat),
        decreases len - start,
    {
        let end: usize = if len - start >= CHUNK_SIZE {
            start + CHUNK_SIZE
        } else {
            len
        };
        let piece = slice_to_vec(slice_subrange(data.as_slice(), start, end));
        let ghost before = out.deep_view();
        let ghost i = out@.len() as int;
        assert(piece@ == chunk(data@, i));
        out.push(piece);
        assert(out.deep_view() =~~= before.push(piece@));
        assert(out.deep_view() =~= first_chunks(data@, (i + 1) as nat));
        start = end;
    }
    out
}

} // verus!
