//! The container writer.
//!
//! A container is assembled strictly in file order: the host image bytes
//! verbatim, the encoded table of contents, every payload's bytes in the
//! given order, and finally the checksum of everything so far as a 4-byte
//! little-endian trailer.  Every region is folded into one rolling
//! checksum in the order it is written.

use vstd::bytes::spec_u32_to_le_bytes;
use vstd::bytes::u32_to_le_bytes;
use vstd::prelude::*;
use vstd::utf8::encode_utf8;

use crate::crc::crc32_of;
use crate::crc::hasher_fed;
use crate::probe::probe_audio;
use crate::stream::transfer;
use crate::toc::encode_toc;
use crate::toc::entries_raw;
use crate::toc::spec_encode_toc;
use crate::toc::toc_fits;
use crate::toc::TocEntry;
use crate::ContainerError;

verus! {

/// One payload handed to the writer: the name to record in the table of
/// contents and the payload bytes themselves.
pub struct Payload {
    /// The name recorded in the table of contents, as supplied.
    pub name: String,
    /// The payload bytes, appended verbatim.
    pub data: Vec<u8>,
}

/// What one payload contributes on disk: its name's UTF-8 bytes and its
/// data.
pub open spec fn payload_raw(p: Payload) -> (Seq<u8>, Seq<u8>) {
    (encode_utf8(p.name@), p.data@)
}

/// The raw view of a payload list.
pub open spec fn payloads_raw(ps: Seq<Payload>) -> Seq<(Seq<u8>, Seq<u8>)> {
    ps.map_values(|p: Payload| payload_raw(p))
}

/// The table of contents a payload list gives rise to: each name with its
/// data's byte length.
pub open spec fn toc_of_payloads(pv: Seq<(Seq<u8>, Seq<u8>)>) -> Seq<(Seq<u8>, u64)> {
    pv.map_values(|q: (Seq<u8>, Seq<u8>)| (q.0, q.1.len() as u64))
}

/// All payload bytes, in order.
pub open spec fn concat_payloads(pv: Seq<(Seq<u8>, Seq<u8>)>) -> Seq<u8>
    decreases pv.len(),
{
    if pv.len() == 0 {
        Seq::empty()
    } else {
        pv[0].1 + concat_payloads(pv.drop_first())
    }
}

/// Everything before the checksum trailer, in file order.
pub open spec fn spec_container_body(image: Seq<u8>, pv: Seq<(Seq<u8>, Seq<u8>)>) -> Seq<u8> {
    image + spec_encode_toc(toc_of_payloads(pv)) + concat_payloads(pv)
}

/// The complete container: the body followed by the checksum of every
/// body byte, little-endian.
pub open spec fn spec_container(image: Seq<u8>, pv: Seq<(Seq<u8>, Seq<u8>)>) -> Seq<u8> {
    spec_container_body(image, pv) + spec_u32_to_le_bytes(crc32_of(spec_container_body(image, pv)))
}

/// Splitting the last payload off the concatenation.
pub proof fn lemma_concat_payloads_last(pv: Seq<(Seq<u8>, Seq<u8>)>)
    requires
        pv.len() > 0,
    ensures
        concat_payloads(pv) == concat_payloads(pv.drop_last()) + pv.last().1,
    decreases pv.len(),
{
    if pv.len() == 1 {
        assert(pv.drop_first() =~= Seq::<(Seq<u8>, Seq<u8>)>::empty());
        assert(pv.drop_last() =~= Seq::<(Seq<u8>, Seq<u8>)>::empty());
        assert(concat_payloads(pv) =~= concat_payloads(pv.drop_last()) + pv.last().1);
    } else {
        let rest = pv.drop_first();
        lemma_concat_payloads_last(rest);
        assert(pv.drop_last().drop_first() =~= rest.drop_last());
        assert(pv.drop_last().len() > 0);
        assert(concat_payloads(pv.drop_last()) == pv[0].1 + concat_payloads(rest.drop_last()));
        assert(concat_payloads(pv) =~= concat_payloads(pv.drop_last()) + pv.last().1);
    }
}

/// Assemble a container from already-validated payloads.  Returns the
/// container bytes and the trailer checksum.  Fails only when the payload
/// count or a name's byte length does not fit its 4-byte on-disk field.
pub fn assemble_container(image: &Vec<u8>, payloads: &Vec<Payload>) -> (r: Result<
    (Vec<u8>, u32),
    ContainerError,
>)
    ensures
        match r {
            Ok((out, checksum)) => {
                &&& toc_fits(toc_of_payloads(payloads_raw(payloads@)))
                &&& out@ == spec_container(image@, payloads_raw(payloads@))
                &&& checksum == crc32_of(spec_container_body(image@, payloads_raw(payloads@)))
            },
            Err(e) => e == ContainerError::TooLarge && !toc_fits(
                toc_of_payloads(payloads_raw(payloads@)),
            ),
        },
{
    let ghost pv = payloads_raw(payloads@);
    let n = payloads.len();

    let mut entries: Vec<TocEntry> = Vec::new();
    let mut i: usize = 0;
    while i < n
        invariant
            n == payloads@.len(),
            pv == payloads_raw(payloads@),
            i <= n,
            entries@.len() == i,
            forall|j: int|
                0 <= j < i ==> (#[trigger] entries@[j]).name@ == payloads@[j].name@
                    && entries@[j].size == payloads@[j].data@.len(),
        decreases n - i,
    {
        let name = payloads[i].name.clone();
        let size = payloads[i].data.len() as u64;
        entries.push(TocEntry { name, size });
        i = i + 1;
    }
    proof {
        assert(entries_raw(entries@) =~= toc_of_payloads(pv));
    }

    let toc_bytes = match encode_toc(&entries) {
        Ok(t) => t,
        Err(e) => {
            return Err(e);
        },
    };

    let mut out: Vec<u8> = Vec::new();
    let mut hasher = crc32fast::Hasher::new();
    transfer(image, &mut out, &mut hasher);
    transfer(&toc_bytes, &mut out, &mut hasher);
    proof {
        assert(out@ =~= image@ + spec_encode_toc(toc_of_payloads(pv)) + concat_payloads(
            pv.subrange(0, 0),
        ));
        assert(hasher_fed(hasher) =~= out@);
    }

    let ghost head = image@ + spec_encode_toc(toc_of_payloads(pv));
    let mut k: usize = 0;
    while k < n
        invariant
            n == payloads@.len(),
            pv == payloads_raw(payloads@),
            k <= n,
            head == image@ + spec_encode_toc(toc_of_payloads(pv)),
            out@ == head + concat_payloads(pv.subrange(0, k as int)),
            hasher_fed(hasher) == out@,
        decreases n - k,
    {
        transfer(&payloads[k].data, &mut out, &mut hasher);
        proof {
            let prev = pv.subrange(0, k as int);
            let cur = pv.subrange(0, k + 1);
            assert(cur.drop_last() =~= prev);
            lemma_concat_payloads_last(cur);
            assert(out@ =~= head + concat_payloads(cur));
        }
        k = k + 1;
    }
    proof {
        assert(pv.subrange(0, n as int) =~= pv);
        assert(out@ == spec_container_body(image@, pv));
    }

    let crc = hasher.finalize();
    let crc_bytes = u32_to_le_bytes(crc);
    out.extend_from_slice(crc_bytes.as_slice());
    proof {
        assert(out@ =~= spec_container(image@, pv));
    }
    Ok((out, crc))
}

/// Write a container: confirm every payload with the audio probe, in
/// order, aborting at the first rejection with no output produced; then
/// assemble image, table of contents, payload bytes and checksum trailer.
///
/// The probe's verdict is the outside collaborator's and is not promised
/// here; on success the output layout is exact, and on a probe rejection
/// the reported index names a payload that the probe rejected on this
/// call.
pub fn write_container(image: &Vec<u8>, payloads: &Vec<Payload>) -> (r: Result<
    (Vec<u8>, u32),
    ContainerError,
>)
    ensures
        ({
            let pv = payloads_raw(payloads@);
            match r {
                Ok((out, checksum)) => {
                    &&& toc_fits(toc_of_payloads(pv))
                    &&& out@ == spec_container(image@, pv)
                    &&& checksum == crc32_of(spec_container_body(image@, pv))
                },
                Err(e) => match e {
                    ContainerError::ValidationFailure { index, .. } => index < pv.len(),
                    ContainerError::TooLarge => !toc_fits(toc_of_payloads(pv)),
                    _ => false,
                },
            }
        }),
{
    let n = payloads.len();
    let mut i: usize = 0;
    while i < n
        invariant
            n == payloads@.len(),
            i <= n,
        decreases n - i,
    {
        match probe_audio(&payloads[i].data) {
            Ok(()) => {},
            Err(reason) => {
                return Err(ContainerError::ValidationFailure { index: i, reason });
            },
        }
        i = i + 1;
    }
    assemble_container(image, payloads)
}

} // verus!
