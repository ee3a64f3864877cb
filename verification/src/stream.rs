//! The streaming transfer/hash primitive.
//!
//! Both operations move over their input in fixed-size chunks, folding
//! every chunk into a rolling checksum in the order it was read; the chunk
//! size affects nothing but efficiency.  `transfer` also appends the bytes
//! to an output buffer; `hash_only` stops after a byte limit, which is how
//! the verifier hashes everything except the checksum trailer.

use vstd::prelude::*;

use crate::crc::hasher_fed;
use crate::scan::BUFFER_SIZE;

verus! {

/// Append all of `src` to `out`, folding the same bytes into `hasher` in
/// order.  Returns the number of bytes moved.
pub fn transfer(src: &Vec<u8>, out: &mut Vec<u8>, hasher: &mut crc32fast::Hasher) -> (n: u64)
    ensures
        final(out)@ == old(out)@ + src@,
        hasher_fed(*final(hasher)) == hasher_fed(*old(hasher)) + src@,
        n == src@.len(),
{
    let ghost out0 = out@;
    let ghost fed0 = hasher_fed(*hasher);
    let len = src.len();
    let mut i: usize = 0;
    while i < len
        invariant
            len == src@.len(),
            i <= len,
            out@ == out0 + src@.subrange(0, i as int),
            hasher_fed(*hasher) == fed0 + src@.subrange(0, i as int),
        decreases len - i,
    {
        let next = if len - i >= BUFFER_SIZE {
            i + BUFFER_SIZE
        } else {
            len
        };
        let chunk = vstd::slice::slice_subrange(src.as_slice(), i, next);
        out.extend_from_slice(chunk);
        hasher.update(chunk);
        proof {
            assert(out0 + src@.subrange(0, i as int) + chunk@ =~= out0 + src@.subrange(
                0,
                next as int,
            ));
            assert(fed0 + src@.subrange(0, i as int) + chunk@ =~= fed0 + src@.subrange(
                0,
                next as int,
            ));
        }
        i = next;
    }
    proof {
        assert(src@.subrange(0, len as int) =~= src@);
    }
    src.len() as u64
}

/// How many bytes `hash_only` consumes: the limit, or everything if the
/// input is shorter.
pub open spec fn spec_hash_take(len: nat, limit: u64) -> int {
    if limit <= len {
        limit as int
    } else {
        len as int
    }
}

/// Fold the first `limit` bytes of `src` into `hasher`, in order, without
/// writing them anywhere; consumes all of `src` if it is shorter than the
/// limit.  Returns the number of bytes consumed.
pub fn hash_only(src: &Vec<u8>, hasher: &mut crc32fast::Hasher, limit: u64) -> (n: u64)
    ensures
        hasher_fed(*final(hasher)) == hasher_fed(*old(hasher)) + src@.subrange(
            0,
            spec_hash_take(src@.len(), limit),
        ),
        n == spec_hash_take(src@.len(), limit),
{
    let ghost fed0 = hasher_fed(*hasher);
    let len = src.len();
    let stop: usize = if limit <= len as u64 {
        limit as usize
    } else {
        len
    };
    let mut i: usize = 0;
    while i < stop
        invariant
            stop <= len,
            len == src@.len(),
            i <= stop,
            hasher_fed(*hasher) == fed0 + src@.subrange(0, i as int),
        decreases stop - i,
    {
        let next = if stop - i >= BUFFER_SIZE {
            i + BUFFER_SIZE
        } else {
            stop
        };
        let chunk = vstd::slice::slice_subrange(src.as_slice(), i, next);
        hasher.update(chunk);
        proof {
            assert(fed0 + src@.subrange(0, i as int) + chunk@ =~= fed0 + src@.subrange(
                0,
                next as int,
            ));
        }
        i = next;
    }
    stop as u64
}

} // verus!
