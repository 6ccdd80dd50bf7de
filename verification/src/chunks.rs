//! How a binary is cut into chunks.
use vstd::prelude::*;

use crate::wire::{DataFrame, CHUNK_SIZE};

verus! {

/// The number of chunks that `len` bytes take, the last of them perhaps not full.
pub open spec fn chunks_in(len: nat) -> nat {
    (len + CHUNK_SIZE - 1) as nat / CHUNK_SIZE as nat
}

/// The payload of chunk `k`: the bytes of `binary` that belong there, and zeros after its end.
pub open spec fn chunk_payload(binary: Seq<u8>, k: nat) -> Seq<u8> {
    Seq::new(
        CHUNK_SIZE as nat,
        |i: int|
            if CHUNK_SIZE * k + i < binary.len() {
                binary[CHUNK_SIZE * k + i]
            } else {
                0
            },
    )
}

/// The payloads of the first `n` chunks, one after the other.
pub open spec fn joined(binary: Seq<u8>, n: nat) -> Seq<u8>
    decreases n,
{
    if n == 0 {
        seq![]
    } else {
        joined(binary, (n - 1) as nat) + chunk_payload(binary, (n - 1) as nat)
    }
}

/// The number of chunks that `len` bytes take.
pub fn chunk_count(len: usize) -> (count: usize)
    ensures
        count == chunks_in(len as nat),
        6 * count >= len,
        count > 0 ==> 6 * (count - 1) < len,
{
    if len % CHUNK_SIZE == 0 {
        len / CHUNK_SIZE
    } else {
        len / CHUNK_SIZE + 1
    }
}

/// Cuts chunk `sequence` out of `binary`.
pub fn cut_chunk(binary: &[u8], sequence: usize) -> (frame: DataFrame)
    requires
        sequence < chunks_in(binary@.len()),
        sequence <= u16::MAX,
    ensures
        frame.seq_num == sequence,
        frame.payload@ == chunk_payload(binary@, sequence as nat),
        forall|i: int|
            0 <= i < 6 ==> #[trigger] frame.payload@[i] == (if 6 * sequence + i < binary@.len() {
                binary@[6 * sequence + i]
            } else {
                0
            }),
{
    let start: usize = sequence * CHUNK_SIZE;
    let end: usize = if binary.len() - start < CHUNK_SIZE {
        binary.len()
    } else {
        start + CHUNK_SIZE
    };
    let mut payload: [u8; CHUNK_SIZE] = [0u8; 6];
    let mut i: usize = 0;
    while i < end - start
        invariant
            start == sequence * CHUNK_SIZE,
            start <= end <= binary@.len(),
            end - start <= CHUNK_SIZE,
            end - start == CHUNK_SIZE || end == binary@.len(),
            0 <= i <= end - start,
            forall|j: int| 0 <= j < i ==> payload@[j] == binary@[start + j],
            forall|j: int| i <= j < CHUNK_SIZE ==> payload@[j] == 0,
        decreases end - start - i,
    {
        payload[i] = binary[start + i];
        i += 1;
    }
    assert(payload@ =~= chunk_payload(binary@, sequence as nat));
    DataFrame { seq_num: sequence as u16, payload }
}

/// The chunks of `len` bytes are as many as the bytes need and no more: six bytes in each are
/// enough, and with one chunk less they are not, so every chunk holds at least one byte.
pub proof fn chunks_are_the_least_that_hold(len: nat)
    ensures
        6 * chunks_in(len) >= len,
        chunks_in(len) > 0 ==> 6 * (chunks_in(len) - 1) < len,
{
}

/// A chunk holds byte for byte what stands at its place in the binary, and zeros after the end.
pub proof fn chunk_holds_its_part(binary: Seq<u8>, k: nat)
    ensures
        chunk_payload(binary, k).len() == 6,
        forall|i: int|
            0 <= i < 6 && 6 * k + i < binary.len() ==> #[trigger] chunk_payload(binary, k)[i]
                == binary[6 * k + i],
        forall|i: int|
            0 <= i < 6 && binary.len() <= 6 * k + i ==> #[trigger] chunk_payload(binary, k)[i]
                == 0,
{
}

/// The first `n` chunks hold six bytes each: those of the binary in order, and zeros after its
/// end.
pub proof fn joined_is_padded_binary(binary: Seq<u8>, n: nat)
    ensures
        joined(binary, n).len() == CHUNK_SIZE * n,
        forall|i: int|
            0 <= i < CHUNK_SIZE * n ==> #[trigger] joined(binary, n)[i] == (if i < binary.len() {
                binary[i]
            } else {
                0
            }),
    decreases n,
{
    if n > 0 {
        joined_is_padded_binary(binary, (n - 1) as nat);
    }
}

/// Splitting loses nothing: the chunks of a binary, joined and cut to its length, are the binary.
pub proof fn chunks_rebuild_binary(binary: Seq<u8>)
    ensures
        joined(binary, chunks_in(binary.len())).len() >= binary.len(),
        joined(binary, chunks_in(binary.len())).take(binary.len() as int) == binary,
{
    joined_is_padded_binary(binary, chunks_in(binary.len()));
    assert(joined(binary, chunks_in(binary.len())).take(binary.len() as int) =~= binary);
}

} // verus!
