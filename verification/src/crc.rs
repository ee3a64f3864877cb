//! Streaming CRC-32 state, through the `crc32fast` crate.
//!
//! The digest itself is outside code; nothing here restates its
//! mathematics.  The contracts only record that a hasher consumes bytes in
//! order and that the finished digest is a function of exactly those bytes,
//! which is what the checksum protocol of the container format rests on.

use vstd::prelude::*;

verus! {

#[verifier::external_type_specification]
#[verifier::external_body]
pub struct ExHasher(crc32fast::Hasher);

/// The CRC-32 digest of a byte sequence, as `crc32fast` computes it.  The
/// digest depends on the bytes alone; its definition is left to the
/// outside crate.
pub uninterp spec fn crc32_of(data: Seq<u8>) -> u32;

/// The bytes a hasher has consumed so far, in order.
pub uninterp spec fn hasher_fed(h: crc32fast::Hasher) -> Seq<u8>;

/// Relies on `crc32fast::Hasher::new`: a fresh hasher has consumed no
/// bytes.
pub assume_specification[ crc32fast::Hasher::new ]() -> (h: crc32fast::Hasher)
    ensures
        hasher_fed(h) == Seq::<u8>::empty(),
;

/// Relies on `crc32fast::Hasher::update`: the hasher consumes exactly the
/// given bytes, after everything it consumed before.
pub assume_specification[ crc32fast::Hasher::update ](h: &mut crc32fast::Hasher, buf: &[u8])
    ensures
        hasher_fed(*final(h)) == hasher_fed(*old(h)) + buf@,
;

/// Relies on `crc32fast::Hasher::finalize`: the digest is a function of
/// the consumed bytes alone.
pub assume_specification[ crc32fast::Hasher::finalize ](h: crc32fast::Hasher) -> (r: u32)
    ensures
        r == crc32_of(hasher_fed(h)),
;

} // verus!
