//! The container reader.
//!
//! Reading never requires a prior integrity check: `verify` is a separate,
//! optional step, and callers decide whether to trust payload bytes
//! without it.  Listing locates the marker and decodes the table of
//! contents just past it; payload retrieval resolves each region's
//! absolute offset by accumulating the sizes of the regions before it.

use vstd::bytes::spec_u32_from_le_bytes;
use vstd::bytes::u32_from_le_bytes;
use vstd::prelude::*;

use crate::crc::crc32_of;
use crate::crc::hasher_fed;
use crate::scan::find_marker;
use crate::scan::spec_find_marker;
use crate::stream::hash_only;
use crate::toc::decode_toc;
use crate::toc::entries_match_raw;
use crate::toc::spec_decode_toc;
use crate::toc::TocEntry;
use crate::ContainerError;

verus! {

/// Sum of the first `i` sizes.
pub open spec fn spec_sum_sizes(sizes: Seq<u64>, i: int) -> int
    recommends
        i <= sizes.len(),
    decreases i,
{
    if i <= 0 {
        0
    } else {
        spec_sum_sizes(sizes, i - 1) + sizes[i - 1]
    }
}

/// Prefix sums of sizes never decrease, and never drop below zero.
pub proof fn lemma_sum_sizes_mono(sizes: Seq<u64>, i: int, j: int)
    requires
        0 <= i <= j,
    ensures
        0 <= spec_sum_sizes(sizes, i) <= spec_sum_sizes(sizes, j),
    decreases j,
{
    if i < j {
        lemma_sum_sizes_mono(sizes, i, j - 1);
    } else {
        if i > 0 {
            lemma_sum_sizes_mono(sizes, 0, i - 1);
        }
    }
}

/// The sizes column of a raw entry list.
pub open spec fn raw_sizes(raw: Seq<(Seq<u8>, u64)>) -> Seq<u64> {
    raw.map_values(|e: (Seq<u8>, u64)| e.1)
}

/// The sizes column of a decoded entry list.
pub open spec fn toc_sizes(entries: Seq<TocEntry>) -> Seq<u64> {
    entries.map_values(|e: TocEntry| e.size)
}

/// Whether the stored trailer equals the checksum of everything before
/// it.
pub open spec fn spec_checksum_ok(data: Seq<u8>) -> bool
    recommends
        data.len() >= 4,
{
    spec_u32_from_le_bytes(data.subrange(data.len() - 4, data.len() as int)) == crc32_of(
        data.subrange(0, data.len() - 4),
    )
}

/// Check the container's integrity: hash every byte except the 4-byte
/// trailer and compare against the trailer.  Fails only on data too short
/// to hold a trailer at all.
pub fn verify(data: &Vec<u8>) -> (r: Result<bool, ContainerError>)
    ensures
        match r {
            Ok(ok) => data@.len() >= 4 && ok == spec_checksum_ok(data@),
            Err(e) => e == ContainerError::FileTooSmall && data@.len() < 4,
        },
{
    let len = data.len();
    if len < 4 {
        return Err(ContainerError::FileTooSmall);
    }
    let mut hasher = crc32fast::Hasher::new();
    hash_only(data, &mut hasher, (len - 4) as u64);
    proof {
        assert(hasher_fed(hasher) =~= data@.subrange(0, len - 4));
    }
    let crc = hasher.finalize();
    let stored_bytes = vstd::slice::slice_subrange(data.as_slice(), len - 4, len);
    let stored = u32_from_le_bytes(stored_bytes);
    Ok(crc == stored)
}

/// List the payloads: locate the marker, then decode the table of
/// contents immediately after it.
pub fn list_tracks(data: &Vec<u8>) -> (r: Result<Vec<TocEntry>, ContainerError>)
    ensures
        match r {
            Ok(entries) => {
                &&& spec_find_marker(data@) is Some
                &&& spec_decode_toc(data@, spec_find_marker(data@).unwrap()) is Some
                &&& entries_match_raw(
                    entries@,
                    spec_decode_toc(data@, spec_find_marker(data@).unwrap()).unwrap().0,
                )
            },
            Err(e) => match e {
                ContainerError::MarkerNotFound => spec_find_marker(data@) is None,
                ContainerError::TocTruncated => {
                    &&& spec_find_marker(data@) is Some
                    &&& spec_decode_toc(data@, spec_find_marker(data@).unwrap()) is None
                },
                _ => false,
            },
        },
{
    let m = match find_marker(data) {
        Some(o) => o,
        None => {
            return Err(ContainerError::MarkerNotFound);
        },
    };
    match decode_toc(data, m) {
        Ok((entries, _payload_start)) => Ok(entries),
        Err(e) => Err(e),
    }
}

/// Absolute byte offsets of the payload regions: the first payload starts
/// where the payload region starts, and each further payload starts where
/// the previous one ends.  A pure accumulation, no data access.
pub fn resolve_offsets(toc: &Vec<TocEntry>, payload_region_start: u64) -> (r: Vec<u64>)
    requires
        payload_region_start + spec_sum_sizes(toc_sizes(toc@), toc@.len() as int) <= u64::MAX,
    ensures
        r@.len() == toc@.len(),
        forall|i: int|
            0 <= i < toc@.len() ==> r@[i] == payload_region_start + spec_sum_sizes(
                toc_sizes(toc@),
                i,
            ),
{
    let mut r: Vec<u64> = Vec::new();
    let mut off: u64 = payload_region_start;
    let n = toc.len();
    let mut i: usize = 0;
    while i < n
        invariant
            n == toc@.len(),
            i <= n,
            r@.len() == i,
            payload_region_start + spec_sum_sizes(toc_sizes(toc@), n as int) <= u64::MAX,
            off == payload_region_start + spec_sum_sizes(toc_sizes(toc@), i as int),
            forall|j: int|
                0 <= j < i ==> r@[j] == payload_region_start + spec_sum_sizes(toc_sizes(toc@), j),
        decreases n - i,
    {
        r.push(off);
        proof {
            lemma_sum_sizes_mono(toc_sizes(toc@), i + 1, n as int);
        }
        off = off + toc[i].size;
        i = i + 1;
    }
    r
}

/// What `read_track` returns, over the raw data.
pub open spec fn spec_read_track(data: Seq<u8>, index: int) -> Result<Seq<u8>, ContainerError> {
    match spec_find_marker(data) {
        None => Err(ContainerError::MarkerNotFound),
        Some(m) => match spec_decode_toc(data, m) {
            None => Err(ContainerError::TocTruncated),
            Some((raw, payload_start)) => {
                if index < 1 || index > raw.len() {
                    Err(ContainerError::IndexOutOfRange)
                } else {
                    let off = payload_start + spec_sum_sizes(raw_sizes(raw), index - 1);
                    let end = off + raw[index - 1].1;
                    if end > data.len() {
                        Err(ContainerError::TocTruncated)
                    } else {
                        Ok(data.subrange(off, end))
                    }
                }
            },
        },
    }
}

/// Read one payload's bytes.  `index` is 1-based; an index outside
/// `1 ..= track_count` is rejected, and so is a table whose declared
/// sizes would place the payload past the end of the data.
pub fn read_track(data: &Vec<u8>, index: usize) -> (r: Result<Vec<u8>, ContainerError>)
    ensures
        match r {
            Ok(v) => spec_read_track(data@, index as int) == Ok::<Seq<u8>, ContainerError>(v@),
            Err(e) => spec_read_track(data@, index as int) == Err::<Seq<u8>, ContainerError>(e),
        },
{
    let len = data.len();
    let m = match find_marker(data) {
        Some(o) => o,
        None => {
            return Err(ContainerError::MarkerNotFound);
        },
    };
    let (entries, payload_start) = match decode_toc(data, m) {
        Ok(p) => p,
        Err(e) => {
            return Err(e);
        },
    };
    let ghost raw = spec_decode_toc(data@, m as int).unwrap().0;
    let count = entries.len();
    if index == 0 || index > count {
        return Err(ContainerError::IndexOutOfRange);
    }

    let mut cur: usize = payload_start;
    let mut j: usize = 0;
    while j < index - 1
        invariant
            len == data@.len(),
            spec_find_marker(data@) == Some(m as int),
            spec_decode_toc(data@, m as int) is Some,
            raw == spec_decode_toc(data@, m as int).unwrap().0,
            payload_start == spec_decode_toc(data@, m as int).unwrap().1,
            entries_match_raw(entries@, raw),
            count == entries@.len(),
            1 <= index <= count,
            j <= index - 1,
            cur <= len,
            cur == payload_start + spec_sum_sizes(raw_sizes(raw), j as int),
        decreases index - 1 - j,
    {
        let size = entries[j].size;
        if size > (len - cur) as u64 {
            proof {
                lemma_sum_sizes_mono(raw_sizes(raw), j + 1, index as int);
            }
            return Err(ContainerError::TocTruncated);
        }
        cur = cur + size as usize;
        j = j + 1;
    }
    let size = entries[index - 1].size;
    if size > (len - cur) as u64 {
        return Err(ContainerError::TocTruncated);
    }
    let track_slice = vstd::slice::slice_subrange(data.as_slice(), cur, cur + size as usize);
    let track = vstd::slice::slice_to_vec(track_slice);
    Ok(track)
}

} // verus!
