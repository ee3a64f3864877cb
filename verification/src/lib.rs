//! Container engine for audio payloads embedded in a host image file.
//!
//! A container is one flat byte stream: the host image (which ends with a
//! fixed 12-byte end-of-image marker), a table of contents listing the
//! payloads by name and size, the payload bytes themselves in order, and a
//! 4-byte little-endian CRC-32 trailer covering every preceding byte.
//! Ordinary image viewers stop at the marker; this library reads past it.
//!
//! The modules below cover marker scanning (including markers that straddle
//! two read buffers), the table-of-contents codec, streaming checksum
//! accumulation, the writer that assembles a container, and the reader that
//! verifies, lists and extracts payloads.

use vstd::prelude::*;

pub mod crc;
pub mod duration;
pub mod laws;
pub mod player;
pub mod probe;
pub mod reader;
pub mod scan;
pub mod stream;
pub mod text;
pub mod toc;
pub mod ui;
pub mod writer;

verus! {

/// Why the audio probe rejected a payload.
#[derive(Clone, Copy, Debug, PartialEq, Eq, Structural)]
pub enum ProbeRejection {
    /// The probe could not even guess at a supported audio format.
    UnknownFormat,
    /// The probe could not parse the payload as the format it guessed.
    Damaged,
}

/// Everything that can go wrong inside the container engine.
///
/// I/O failures are not represented here: this engine works on byte
/// sequences already in memory, and callers doing file I/O report those
/// failures themselves.
#[derive(Clone, Copy, Debug, PartialEq, Eq, Structural)]
pub enum ContainerError {
    /// The fixed end-of-image marker never appears in the data.
    MarkerNotFound,
    /// Decoding the table of contents ran past the end of the data, or a
    /// declared payload region runs past the end of the data.
    TocTruncated,
    /// The data is shorter than the 4-byte checksum trailer.
    FileTooSmall,
    /// A payload index outside `1 ..= track_count` was requested.
    IndexOutOfRange,
    /// The payload at this position was rejected by the audio probe, for
    /// the reason the probe gave.
    ValidationFailure { index: usize, reason: ProbeRejection },
    /// A name or the payload count does not fit the fixed-width fields of
    /// the on-disk layout.
    TooLarge,
}

} // verus!
