//! The table-of-contents codec.
//!
//! On disk the table of contents is a 4-byte little-endian payload count,
//! followed for each payload by a 4-byte little-endian name length, the
//! name's UTF-8 bytes, and an 8-byte little-endian payload size.  The
//! decoder consumes exactly this structure; any read that would run past
//! the end of the data is truncation, never a silently shorter list.

use vstd::bytes::lemma_auto_spec_u32_to_from_le_bytes;
use vstd::bytes::lemma_auto_spec_u64_to_from_le_bytes;
use vstd::bytes::spec_u32_to_le_bytes;
use vstd::bytes::spec_u64_to_le_bytes;
use vstd::bytes::u32_to_le_bytes;
use vstd::bytes::u64_to_le_bytes;
use vstd::prelude::*;
use vstd::utf8::decode_utf8;
use vstd::utf8::encode_utf8;
use vstd::utf8::valid_utf8;

use crate::text::lossy_decode;
use crate::text::name_to_bytes;
use crate::ContainerError;

verus! {

/// Highest value the 4-byte count and name-length fields can hold, plus
/// one.
pub const FIELD_LIMIT: u64 = 0x1_0000_0000;

/// One payload as the table of contents describes it: the file name given
/// at write time (order matters, uniqueness does not) and the exact byte
/// length of the payload region.
pub struct TocEntry {
    /// The payload's name, as supplied at write time.
    pub name: String,
    /// The payload region's exact length in bytes.
    pub size: u64,
}

/// What one entry contributes to the on-disk table: its name's UTF-8 bytes
/// and its size.
pub open spec fn entry_raw(e: TocEntry) -> (Seq<u8>, u64) {
    (encode_utf8(e.name@), e.size)
}

/// The raw view of a whole entry list.
pub open spec fn entries_raw(entries: Seq<TocEntry>) -> Seq<(Seq<u8>, u64)> {
    entries.map_values(|e: TocEntry| entry_raw(e))
}

/// The on-disk bytes of one entry.
pub open spec fn spec_encode_entry(name: Seq<u8>, size: u64) -> Seq<u8>
    recommends
        name.len() < FIELD_LIMIT,
{
    spec_u32_to_le_bytes(name.len() as u32) + name + spec_u64_to_le_bytes(size)
}

/// The on-disk bytes of an entry list, without the leading count.
pub open spec fn spec_encode_entries(raw: Seq<(Seq<u8>, u64)>) -> Seq<u8>
    decreases raw.len(),
{
    if raw.len() == 0 {
        Seq::empty()
    } else {
        spec_encode_entry(raw[0].0, raw[0].1) + spec_encode_entries(raw.drop_first())
    }
}

/// The complete on-disk table of contents.
pub open spec fn spec_encode_toc(raw: Seq<(Seq<u8>, u64)>) -> Seq<u8>
    recommends
        toc_fits(raw),
{
    spec_u32_to_le_bytes(raw.len() as u32) + spec_encode_entries(raw)
}

/// The count and every name length fit their 4-byte fields.
pub open spec fn toc_fits(raw: Seq<(Seq<u8>, u64)>) -> bool {
    &&& raw.len() < FIELD_LIMIT
    &&& forall|i: int| 0 <= i < raw.len() ==> (#[trigger] raw[i].0).len() < FIELD_LIMIT
}

/// Splitting the last entry off an encoding.
pub proof fn lemma_encode_entries_last(raw: Seq<(Seq<u8>, u64)>)
    requires
        raw.len() > 0,
    ensures
        spec_encode_entries(raw) == spec_encode_entries(raw.drop_last()) + spec_encode_entry(
            raw.last().0,
            raw.last().1,
        ),
    decreases raw.len(),
{
    if raw.len() == 1 {
        assert(raw.drop_first() =~= Seq::<(Seq<u8>, u64)>::empty());
        assert(raw.drop_last() =~= Seq::<(Seq<u8>, u64)>::empty());
        assert(spec_encode_entries(raw) =~= spec_encode_entries(raw.drop_last())
            + spec_encode_entry(raw.last().0, raw.last().1));
    } else {
        let rest = raw.drop_first();
        lemma_encode_entries_last(rest);
        assert(raw.drop_last().drop_first() =~= rest.drop_last());
        assert(raw.drop_last().len() > 0);
        assert(spec_encode_entries(raw.drop_last()) == spec_encode_entry(raw[0].0, raw[0].1)
            + spec_encode_entries(rest.drop_last()));
        assert(spec_encode_entries(raw) =~= spec_encode_entries(raw.drop_last())
            + spec_encode_entry(raw.last().0, raw.last().1));
    }
}

/// Serialize a table of contents.  Fails only when the entry count or a
/// name's byte length does not fit its 4-byte field.
pub fn encode_toc(entries: &Vec<TocEntry>) -> (r: Result<Vec<u8>, ContainerError>)
    ensures
        match r {
            Ok(out) => toc_fits(entries_raw(entries@)) && out@ == spec_encode_toc(
                entries_raw(entries@),
            ),
            Err(e) => e == ContainerError::TooLarge && !toc_fits(entries_raw(entries@)),
        },
{
    let ghost raw = entries_raw(entries@);
    let count = entries.len();
    if count as u64 >= FIELD_LIMIT {
        return Err(ContainerError::TooLarge);
    }
    let mut out = u32_to_le_bytes(count as u32);
    let len_entries = entries.len();
    let mut i: usize = 0;
    while i < len_entries
        invariant
            len_entries == entries@.len(),
            raw == entries_raw(entries@),
            raw.len() < FIELD_LIMIT,
            i <= len_entries,
            forall|j: int| 0 <= j < i ==> (#[trigger] raw[j].0).len() < FIELD_LIMIT,
            out@ == spec_u32_to_le_bytes(raw.len() as u32) + spec_encode_entries(
                raw.subrange(0, i as int),
            ),
        decreases len_entries - i,
    {
        let name_bytes = name_to_bytes(&entries[i].name);
        if name_bytes.len() as u64 >= FIELD_LIMIT {
            return Err(ContainerError::TooLarge);
        }
        let len_bytes = u32_to_le_bytes(name_bytes.len() as u32);
        let size_bytes = u64_to_le_bytes(entries[i].size);
        out.extend_from_slice(len_bytes.as_slice());
        out.extend_from_slice(name_bytes.as_slice());
        out.extend_from_slice(size_bytes.as_slice());
        proof {
            let prev = raw.subrange(0, i as int);
            let cur = raw.subrange(0, i + 1);
            assert(cur.drop_last() =~= prev);
            assert(cur.last() == raw[i as int]);
            lemma_encode_entries_last(cur);
            assert(out@ =~= spec_u32_to_le_bytes(raw.len() as u32) + spec_encode_entries(cur));
        }
        i = i + 1;
    }
    proof {
        assert(raw.subrange(0, len_entries as int) =~= raw);
    }
    Ok(out)
}

/// Decode `n` entries from `data` starting at `pos`: the entries' raw
/// forms and the position just past them, or `None` when any field would
/// run past the end of the data.
pub open spec fn spec_decode_entries(data: Seq<u8>, pos: int, n: nat) -> Option<
    (Seq<(Seq<u8>, u64)>, int),
>
    decreases n,
{
    if n == 0 {
        Some((Seq::empty(), pos))
    } else if pos < 0 || pos + 4 > data.len() {
        None
    } else {
        let name_len = vstd::bytes::spec_u32_from_le_bytes(data.subrange(pos, pos + 4)) as int;
        if pos + 4 + name_len + 8 > data.len() {
            None
        } else {
            let name = data.subrange(pos + 4, pos + 4 + name_len);
            let size = vstd::bytes::spec_u64_from_le_bytes(
                data.subrange(pos + 4 + name_len, pos + 4 + name_len + 8),
            );
            match spec_decode_entries(data, pos + 4 + name_len + 8, (n - 1) as nat) {
                Some((rest, end)) => Some((seq![(name, size)] + rest, end)),
                None => None,
            }
        }
    }
}

/// Decode a whole table of contents from `data` starting at `pos`.
pub open spec fn spec_decode_toc(data: Seq<u8>, pos: int) -> Option<(Seq<(Seq<u8>, u64)>, int)> {
    if pos < 0 || pos + 4 > data.len() {
        None
    } else {
        let count = vstd::bytes::spec_u32_from_le_bytes(data.subrange(pos, pos + 4));
        spec_decode_entries(data, pos + 4, count as nat)
    }
}

/// How a decoded entry list relates to its raw form: sizes are copied,
/// and each name is the lossy UTF-8 decoding of its raw bytes, which for
/// valid UTF-8 is exactly the original character sequence.
pub open spec fn entries_match_raw(entries: Seq<TocEntry>, raw: Seq<(Seq<u8>, u64)>) -> bool {
    &&& entries.len() == raw.len()
    &&& forall|i: int| 0 <= i < raw.len() ==> (#[trigger] entries[i]).size == raw[i].1
    &&& forall|i: int| 0 <= i < raw.len() ==> (#[trigger] entries[i]).name@ == lossy_decode(
        raw[i].0,
    )
    &&& forall|i: int|
        0 <= i < raw.len() ==> valid_utf8(raw[i].0) ==> (#[trigger] entries[i]).name@
            == decode_utf8(raw[i].0)
}

/// Decode the table of contents that starts at `pos`.  On success the
/// result also reports the position just past the table, where the
/// payload region begins.  Fails exactly when a field would run past the
/// end of the data.
pub fn decode_toc(data: &Vec<u8>, pos: usize) -> (r: Result<(Vec<TocEntry>, usize), ContainerError>)
    ensures
        match r {
            Ok((entries, end)) => {
                &&& spec_decode_toc(data@, pos as int) is Some
                &&& {
                    let (raw, spec_end) = spec_decode_toc(data@, pos as int).unwrap();
                    &&& end == spec_end
                    &&& pos + 4 <= end <= data@.len()
                    &&& entries_match_raw(entries@, raw)
                }
            },
            Err(e) => {
                &&& e == ContainerError::TocTruncated
                &&& spec_decode_toc(data@, pos as int) is None
            },
        },
{
    let len = data.len();
    if len < 4 || pos > len - 4 {
        return Err(ContainerError::TocTruncated);
    }
    let count_bytes = vstd::slice::slice_subrange(data.as_slice(), pos, pos + 4);
    let count = vstd::bytes::u32_from_le_bytes(count_bytes);
    let ghost full = match spec_decode_entries(data@, pos + 4, count as nat) {
        Some(p) => p,
        None => (Seq::empty(), 0int),
    };

    let mut entries: Vec<TocEntry> = Vec::new();
    let ghost mut raw_done: Seq<(Seq<u8>, u64)> = Seq::empty();
    let mut cur: usize = pos + 4;
    let mut k: usize = 0;
    let count_us = count as usize;
    while k < count_us
        invariant
            len == data@.len(),
            count_us == count,
            spec_decode_toc(data@, pos as int) == spec_decode_entries(data@, pos + 4, count as nat),
            pos + 4 <= cur <= len,
            k <= count_us,
            entries_match_raw(entries@, raw_done),
            raw_done.len() == k,
            spec_decode_entries(data@, pos + 4, count as nat) == (match spec_decode_entries(
                data@,
                cur as int,
                (count_us - k) as nat,
            ) {
                Some((rest, end)) => Some::<(Seq<(Seq<u8>, u64)>, int)>((raw_done + rest, end)),
                None => None::<(Seq<(Seq<u8>, u64)>, int)>,
            }),
        decreases count_us - k,
    {
        let ghost m = (count_us - k) as nat;
        if len - cur < 4 {
            proof {
                assert(spec_decode_entries(data@, cur as int, m) is None);
            }
            return Err(ContainerError::TocTruncated);
        }
        let nl_bytes = vstd::slice::slice_subrange(data.as_slice(), cur, cur + 4);
        let name_len = vstd::bytes::u32_from_le_bytes(nl_bytes);
        if name_len as u64 + 8 > (len - (cur + 4)) as u64 {
            proof {
                assert(spec_decode_entries(data@, cur as int, m) is None);
            }
            return Err(ContainerError::TocTruncated);
        }
        let name_start = cur + 4;
        let name_end = name_start + name_len as usize;
        let name_slice = vstd::slice::slice_subrange(data.as_slice(), name_start, name_end);
        let name_vec = vstd::slice::slice_to_vec(name_slice);
        let name = crate::text::bytes_to_name(&name_vec);
        let size_bytes = vstd::slice::slice_subrange(data.as_slice(), name_end, name_end + 8);
        let size = vstd::bytes::u64_from_le_bytes(size_bytes);
        let ghost raw_entry = (data@.subrange(cur + 4, cur + 4 + name_len as int), size);
        entries.push(TocEntry { name, size });
        proof {
            assert(spec_decode_entries(data@, cur as int, m) == (
            match spec_decode_entries(data@, name_end + 8, (m - 1) as nat) {
                Some((rest, end)) => Some::<(Seq<(Seq<u8>, u64)>, int)>(
                    (seq![raw_entry] + rest, end),
                ),
                None => None::<(Seq<(Seq<u8>, u64)>, int)>,
            }));
            let old_done = raw_done;
            raw_done = raw_done + seq![raw_entry];
            match spec_decode_entries(data@, name_end + 8, (m - 1) as nat) {
                Some((rest, end)) => {
                    assert(old_done + (seq![raw_entry] + rest) =~= raw_done + rest);
                },
                None => {},
            }
        }
        cur = name_end + 8;
        k = k + 1;
    }
    proof {
        assert(spec_decode_entries(data@, cur as int, 0) == Some::<(Seq<(Seq<u8>, u64)>, int)>(
            (Seq::<(Seq<u8>, u64)>::empty(), cur as int),
        ));
        assert(raw_done + Seq::<(Seq<u8>, u64)>::empty() =~= raw_done);
    }
    Ok((entries, cur))
}

/// A window into a region known byte-for-byte equals the same window into
/// the region's own bytes.
proof fn lemma_sub_of_eq(data: Seq<u8>, pos: int, enc: Seq<u8>, a: int, b: int)
    requires
        0 <= pos,
        pos + enc.len() <= data.len(),
        data.subrange(pos, pos + enc.len()) == enc,
        0 <= a <= b <= enc.len(),
    ensures
        data.subrange(pos + a, pos + b) == enc.subrange(a, b),
{
    assert forall|i: int| 0 <= i < b - a implies data.subrange(pos + a, pos + b)[i]
        == enc.subrange(a, b)[i] by {
        assert(data.subrange(pos, pos + enc.len())[a + i] == enc[a + i]);
    }
    assert(data.subrange(pos + a, pos + b) =~= enc.subrange(a, b));
}

/// Decoding reads back exactly what encoding wrote, wherever the encoded
/// table sits inside a larger byte sequence.
pub proof fn lemma_decode_encode_entries(data: Seq<u8>, pos: int, raw: Seq<(Seq<u8>, u64)>)
    requires
        0 <= pos,
        forall|i: int| 0 <= i < raw.len() ==> (#[trigger] raw[i].0).len() < FIELD_LIMIT,
        pos + spec_encode_entries(raw).len() <= data.len(),
        data.subrange(pos, pos + spec_encode_entries(raw).len()) == spec_encode_entries(raw),
    ensures
        spec_decode_entries(data, pos, raw.len() as nat) == Some::<(Seq<(Seq<u8>, u64)>, int)>(
            (raw, pos + spec_encode_entries(raw).len()),
        ),
    decreases raw.len(),
{
    lemma_auto_spec_u32_to_from_le_bytes();
    lemma_auto_spec_u64_to_from_le_bytes();
    if raw.len() == 0 {
        assert(raw =~= Seq::<(Seq<u8>, u64)>::empty());
    } else {
        let name = raw[0].0;
        let size = raw[0].1;
        let e0 = spec_encode_entry(name, size);
        let rest = raw.drop_first();
        let rest_enc = spec_encode_entries(rest);
        let enc = spec_encode_entries(raw);
        let nl = name.len() as int;
        assert(enc == e0 + rest_enc);
        assert(e0.len() == 4 + nl + 8);

        lemma_sub_of_eq(data, pos, enc, 0, 4);
        assert(enc.subrange(0, 4) =~= spec_u32_to_le_bytes(name.len() as u32));
        assert(vstd::bytes::spec_u32_from_le_bytes(data.subrange(pos, pos + 4)) == name.len());
        lemma_sub_of_eq(data, pos, enc, 4, 4 + nl);
        assert(enc.subrange(4, 4 + nl) =~= name);
        lemma_sub_of_eq(data, pos, enc, 4 + nl, 4 + nl + 8);
        assert(enc.subrange(4 + nl, 4 + nl + 8) =~= spec_u64_to_le_bytes(size));
        assert(vstd::bytes::spec_u64_from_le_bytes(data.subrange(pos + 4 + nl, pos + 4 + nl + 8))
            == size);

        let pos2 = pos + 4 + nl + 8;
        lemma_sub_of_eq(data, pos, enc, 4 + nl + 8, enc.len() as int);
        assert(enc.subrange(4 + nl + 8, enc.len() as int) =~= rest_enc);
        assert(forall|i: int| 0 <= i < rest.len() ==> (#[trigger] rest[i].0).len() < FIELD_LIMIT);
        lemma_decode_encode_entries(data, pos2, rest);
        assert(seq![(name, size)] + rest =~= raw);
    }
}

/// Decoding reads back exactly what `spec_encode_toc` wrote.
pub proof fn lemma_decode_encode_toc(data: Seq<u8>, pos: int, raw: Seq<(Seq<u8>, u64)>)
    requires
        0 <= pos,
        toc_fits(raw),
        pos + spec_encode_toc(raw).len() <= data.len(),
        data.subrange(pos, pos + spec_encode_toc(raw).len()) == spec_encode_toc(raw),
    ensures
        spec_decode_toc(data, pos) == Some::<(Seq<(Seq<u8>, u64)>, int)>(
            (raw, pos + spec_encode_toc(raw).len()),
        ),
{
    lemma_auto_spec_u32_to_from_le_bytes();
    let enc = spec_encode_toc(raw);
    let entries_enc = spec_encode_entries(raw);
    assert(enc == spec_u32_to_le_bytes(raw.len() as u32) + entries_enc);
    lemma_sub_of_eq(data, pos, enc, 0, 4);
    assert(enc.subrange(0, 4) =~= spec_u32_to_le_bytes(raw.len() as u32));
    assert(vstd::bytes::spec_u32_from_le_bytes(data.subrange(pos, pos + 4)) == raw.len());
    lemma_sub_of_eq(data, pos, enc, 4, enc.len() as int);
    assert(enc.subrange(4, enc.len() as int) =~= entries_enc);
    lemma_decode_encode_entries(data, pos + 4, raw);
}

} // verus!
