//! The external audio probe.
//!
//! Whether a payload counts as recognizable audio is decided by an outside
//! probe, not by this engine; the writer only consults it and aborts on
//! the first rejection.  The probe's verdict is not a function of the
//! payload bytes alone: it can also turn on the probe library's
//! process-wide configuration (its global options and any custom format
//! resolvers a host registers).  So nothing is promised of the verdict
//! here; callers state what holds of every outcome.

use vstd::prelude::*;

use crate::ProbeRejection;

verus! {

/// Ask the audio probe whether these bytes are a supported, readable
/// audio payload.
///
/// Relies on lofty's `Probe` only for memory safety and termination: its
/// verdict may depend on lofty's process-wide configuration as well as on
/// the bytes, so no two calls are assumed to agree, and no `ensures`
/// constrains the result.  A guess failure is reported as an unknown
/// format, a parse failure as a damaged file.
#[verifier::external_body]
pub fn probe_audio(data: &Vec<u8>) -> (r: Result<(), ProbeRejection>) {
    match lofty::probe::Probe::new(std::io::Cursor::new(data.as_slice())).guess_file_type() {
        Ok(p) => match p.read() {
            Ok(_) => Ok(()),
            Err(_) => Err(ProbeRejection::Damaged),
        },
        Err(_) => Err(ProbeRejection::UnknownFormat),
    }
}

} // verus!
