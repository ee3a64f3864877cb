//! Laws relating the writer to the reader.
//!
//! These are the format's global guarantees: a container written from an
//! image and a payload list reads back exactly that list, the trailer of a
//! freshly written container always checks out, and a container whose
//! trailer is tampered with never does.

use vstd::prelude::*;
use vstd::utf8::decode_utf8;
use vstd::utf8::encode_utf8;
use vstd::utf8::valid_utf8;

use crate::crc::crc32_of;
use crate::reader::raw_sizes;
use crate::reader::spec_checksum_ok;
use crate::reader::spec_read_track;
use crate::reader::spec_sum_sizes;
use crate::reader::lemma_sum_sizes_mono;
use crate::scan::lemma_find_extend_found;
use crate::scan::spec_find_marker;
use crate::toc::lemma_decode_encode_toc;
use crate::toc::spec_decode_toc;
use crate::toc::spec_encode_toc;
use crate::toc::toc_fits;
use crate::writer::concat_payloads;
use crate::writer::payloads_raw;
use crate::writer::spec_container;
use crate::writer::spec_container_body;
use crate::writer::toc_of_payloads;
use crate::writer::Payload;
use crate::ContainerError;

verus! {

/// Every payload's byte length fits the 8-byte size field.
pub open spec fn payload_sizes_fit(pv: Seq<(Seq<u8>, Seq<u8>)>) -> bool {
    forall|i: int| 0 <= i < pv.len() ==> (#[trigger] pv[i].1).len() < 0x1_0000_0000_0000_0000
}

/// A prefix sum taken over all but the first size, shifted by the first.
proof fn lemma_sum_shift(sizes: Seq<u64>, i: int)
    requires
        1 <= i <= sizes.len(),
    ensures
        spec_sum_sizes(sizes, i) == sizes[0] + spec_sum_sizes(sizes.drop_first(), i - 1),
    decreases i,
{
    if i == 1 {
        assert(spec_sum_sizes(sizes, 1) == spec_sum_sizes(sizes, 0) + sizes[0]);
        assert(spec_sum_sizes(sizes.drop_first(), 0) == 0);
    } else {
        lemma_sum_shift(sizes, i - 1);
        assert(sizes.drop_first()[i - 2] == sizes[i - 1]);
        assert(spec_sum_sizes(sizes.drop_first(), i - 1) == spec_sum_sizes(sizes.drop_first(), i - 2)
            + sizes.drop_first()[i - 2]);
    }
}

/// The concatenated payload bytes are exactly as long as the sizes say.
proof fn lemma_concat_len(pv: Seq<(Seq<u8>, Seq<u8>)>)
    requires
        payload_sizes_fit(pv),
    ensures
        concat_payloads(pv).len() == spec_sum_sizes(raw_sizes(toc_of_payloads(pv)), pv.len() as int),
    decreases pv.len(),
{
    if pv.len() == 0 {
    } else {
        let rest = pv.drop_first();
        assert(payload_sizes_fit(rest)) by {
            assert(forall|i: int| 0 <= i < rest.len() ==> rest[i] == pv[i + 1]);
        }
        lemma_concat_len(rest);
        assert(raw_sizes(toc_of_payloads(rest)) =~= raw_sizes(toc_of_payloads(pv)).drop_first());
        lemma_sum_shift(raw_sizes(toc_of_payloads(pv)), pv.len() as int);
    }
}

/// Each payload sits in the concatenation exactly between its prefix sum
/// and the next.
proof fn lemma_concat_extract(pv: Seq<(Seq<u8>, Seq<u8>)>, i: int)
    requires
        payload_sizes_fit(pv),
        0 <= i < pv.len(),
    ensures
        spec_sum_sizes(raw_sizes(toc_of_payloads(pv)), i + 1) <= concat_payloads(pv).len(),
        concat_payloads(pv).subrange(
            spec_sum_sizes(raw_sizes(toc_of_payloads(pv)), i),
            spec_sum_sizes(raw_sizes(toc_of_payloads(pv)), i + 1),
        ) == pv[i].1,
    decreases i,
{
    let sizes = raw_sizes(toc_of_payloads(pv));
    lemma_concat_len(pv);
    lemma_sum_sizes_mono(sizes, i + 1, pv.len() as int);
    if i == 0 {
        assert(concat_payloads(pv).subrange(0, pv[0].1.len() as int) =~= pv[0].1);
    } else {
        let rest = pv.drop_first();
        assert(payload_sizes_fit(rest)) by {
            assert(forall|j: int| 0 <= j < rest.len() ==> rest[j] == pv[j + 1]);
        }
        lemma_concat_extract(rest, i - 1);
        let rsizes = raw_sizes(toc_of_payloads(rest));
        assert(rsizes =~= sizes.drop_first());
        lemma_sum_shift(sizes, i);
        lemma_sum_shift(sizes, i + 1);
        lemma_sum_sizes_mono(rsizes, i - 1, i);
        assert(concat_payloads(pv).subrange(
            spec_sum_sizes(sizes, i),
            spec_sum_sizes(sizes, i + 1),
        ) =~= concat_payloads(rest).subrange(
            spec_sum_sizes(rsizes, i - 1),
            spec_sum_sizes(rsizes, i),
        ));
    }
}

/// Round-trip identity over raw byte views: a container assembled from an
/// image whose first marker occurrence ends exactly at the image's end,
/// and from any payload list whose counts and lengths fit their fields,
/// scans back to the marker, decodes back to exactly the written table of
/// contents, and yields every payload's bytes unchanged at its 1-based
/// index.
pub proof fn lemma_round_trip_raw(image: Seq<u8>, pv: Seq<(Seq<u8>, Seq<u8>)>)
    requires
        spec_find_marker(image) == Some(image.len() as int),
        toc_fits(toc_of_payloads(pv)),
        payload_sizes_fit(pv),
    ensures
        ({
            let c = spec_container(image, pv);
            let toc_raw = toc_of_payloads(pv);
            let payload_start = image.len() + spec_encode_toc(toc_raw).len();
            &&& spec_find_marker(c) == Some(image.len() as int)
            &&& spec_decode_toc(c, image.len() as int) == Some::<(Seq<(Seq<u8>, u64)>, int)>(
                (toc_raw, payload_start as int),
            )
            &&& forall|i: int|
                1 <= i <= pv.len() ==> spec_read_track(c, i) == Ok::<Seq<u8>, ContainerError>(
                    pv[i - 1].1,
                )
        }),
{
    let toc_raw = toc_of_payloads(pv);
    let enc = spec_encode_toc(toc_raw);
    let body = spec_container_body(image, pv);
    let c = spec_container(image, pv);
    let payload_start = image.len() + enc.len();
    let sizes = raw_sizes(toc_raw);

    // The marker is found at the end of the image, wherever the stream
    // continues after it.
    assert(c =~= image + (enc + concat_payloads(pv) + c.subrange(
        body.len() as int,
        c.len() as int,
    )));
    lemma_find_extend_found(
        image,
        enc + concat_payloads(pv) + c.subrange(body.len() as int, c.len() as int),
        image.len() as int,
    );

    // The table of contents decodes back to exactly what was written.
    assert(c.subrange(image.len() as int, payload_start as int) =~= enc);
    lemma_decode_encode_toc(c, image.len() as int, toc_raw);

    // Every payload reads back unchanged.
    lemma_concat_len(pv);
    assert forall|i: int| 1 <= i <= pv.len() implies spec_read_track(c, i) == Ok::<
        Seq<u8>,
        ContainerError,
    >(pv[i - 1].1) by {
        lemma_concat_extract(pv, i - 1);
        lemma_sum_sizes_mono(sizes, i, pv.len() as int);
        lemma_sum_sizes_mono(sizes, i - 1, i);
        let off = payload_start + spec_sum_sizes(sizes, i - 1);
        let end = off + toc_raw[i - 1].1;
        assert(toc_raw[i - 1].1 == pv[i - 1].1.len());
        assert(end == payload_start + spec_sum_sizes(sizes, i));
        assert(end <= body.len());
        assert(c.subrange(off, end) =~= concat_payloads(pv).subrange(
            spec_sum_sizes(sizes, i - 1),
            spec_sum_sizes(sizes, i),
        ));
    }
}

/// Round-trip identity at the payload level: names written as UTF-8 come
/// back as valid UTF-8 that decodes to exactly the characters supplied at
/// write time.
pub proof fn lemma_round_trip(image: Seq<u8>, payloads: Seq<Payload>)
    requires
        spec_find_marker(image) == Some(image.len() as int),
        toc_fits(toc_of_payloads(payloads_raw(payloads))),
        payload_sizes_fit(payloads_raw(payloads)),
    ensures
        ({
            let pv = payloads_raw(payloads);
            let c = spec_container(image, pv);
            let toc_raw = toc_of_payloads(pv);
            &&& spec_find_marker(c) == Some(image.len() as int)
            &&& spec_decode_toc(c, image.len() as int) == Some::<(Seq<(Seq<u8>, u64)>, int)>(
                (toc_raw, image.len() + spec_encode_toc(toc_raw).len() as int),
            )
            &&& toc_raw.len() == payloads.len()
            &&& forall|i: int|
                0 <= i < payloads.len() ==> valid_utf8(#[trigger] toc_raw[i].0) && decode_utf8(
                    toc_raw[i].0,
                ) == payloads[i].name@
            &&& forall|i: int|
                0 <= i < payloads.len() ==> (#[trigger] toc_raw[i].1) == payloads[i].data@.len()
            &&& forall|i: int|
                1 <= i <= payloads.len() ==> spec_read_track(c, i) == Ok::<Seq<u8>, ContainerError>(
                    payloads[i - 1].data@,
                )
        }),
{
    let pv = payloads_raw(payloads);
    lemma_round_trip_raw(image, pv);
    assert forall|i: int| 0 <= i < payloads.len() implies valid_utf8(
        #[trigger] toc_of_payloads(pv)[i].0,
    ) && decode_utf8(toc_of_payloads(pv)[i].0) == payloads[i].name@ by {
        assert(toc_of_payloads(pv)[i].0 == encode_utf8(payloads[i].name@));
        vstd::utf8::encode_utf8_valid_utf8(payloads[i].name@);
        vstd::utf8::encode_utf8_decode_utf8(payloads[i].name@);
    }
}

/// A freshly written container always passes verification: its trailer is
/// by construction the checksum of everything before it.
pub proof fn lemma_written_container_verifies(image: Seq<u8>, pv: Seq<(Seq<u8>, Seq<u8>)>)
    ensures
        spec_container(image, pv).len() >= 4,
        spec_checksum_ok(spec_container(image, pv)),
{
    vstd::bytes::lemma_auto_spec_u32_to_from_le_bytes();
    let body = spec_container_body(image, pv);
    let c = spec_container(image, pv);
    assert(c.subrange(0, c.len() - 4) =~= body);
    assert(c.subrange(c.len() - 4, c.len() as int) =~= vstd::bytes::spec_u32_to_le_bytes(
        crc32_of(body),
    ));
}

/// Tampering with the trailer of a passing container always makes
/// verification fail: the hashed bytes are unchanged, so the checksum is
/// unchanged, while the stored trailer now differs from it.
pub proof fn lemma_trailer_tamper(data: Seq<u8>, tampered: Seq<u8>)
    requires
        data.len() >= 4,
        tampered.len() == data.len(),
        tampered.subrange(0, data.len() - 4) == data.subrange(0, data.len() - 4),
        tampered != data,
        spec_checksum_ok(data),
    ensures
        !spec_checksum_ok(tampered),
{
    vstd::bytes::lemma_auto_spec_u32_to_from_le_bytes();
    let n = data.len() as int;
    let t1 = data.subrange(n - 4, n);
    let t2 = tampered.subrange(n - 4, n);
    assert(t1 != t2) by {
        if t1 == t2 {
            assert forall|i: int| 0 <= i < n implies data[i] == tampered[i] by {
                if i < n - 4 {
                    assert(data.subrange(0, n - 4)[i] == tampered.subrange(0, n - 4)[i]);
                } else {
                    assert(t1[i - (n - 4)] == t2[i - (n - 4)]);
                }
            }
            assert(data =~= tampered);
        }
    }
    assert(vstd::bytes::spec_u32_from_le_bytes(t1) != vstd::bytes::spec_u32_from_le_bytes(t2))
        by {
        if vstd::bytes::spec_u32_from_le_bytes(t1) == vstd::bytes::spec_u32_from_le_bytes(t2) {
            assert(vstd::bytes::spec_u32_to_le_bytes(vstd::bytes::spec_u32_from_le_bytes(t1))
                == vstd::bytes::spec_u32_to_le_bytes(vstd::bytes::spec_u32_from_le_bytes(t2)));
        }
    }
}

} // verus!
