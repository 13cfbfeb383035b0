//! Length-prefixed session logic.
//!
//! On the wire, each unit is a 4-byte big-endian length followed by that
//! many payload bytes. A length of 0 or above 16 MiB is treated as corrupt
//! and the unit is skipped. A payload starting with the ASCII magic `CTRL`
//! belongs to the control channel; every other payload is one NAL unit.
//! The socket reads themselves happen outside this crate; these functions
//! make every decision about the bytes once read.

use vstd::prelude::*;
use vstd::slice::slice_subrange;
use crate::control::{handle_control_message, rotation_update};
use crate::scan::{has_annexb_prefix, normalize_nal, spec_normalize_nal};

verus! {

/// Largest payload length accepted from the wire.
pub const MAX_NAL_SIZE: u32 = 16 * 1024 * 1024;

/// The big-endian 32-bit value held in the 4 bytes of `s`.
pub open spec fn spec_be_u32(s: Seq<u8>) -> int {
    s[0] * 0x1000000 + s[1] * 0x10000 + s[2] * 0x100 + s[3]
}

/// Read a big-endian 32-bit length field.
pub fn be_u32(b: &[u8]) -> (r: u32)
    requires
        b@.len() == 4,
    ensures
        r == spec_be_u32(b@),
{
    (b[0] as u32) * 0x1000000 + (b[1] as u32) * 0x10000 + (b[2] as u32) * 0x100 + (b[3] as u32)
}

/// A length field announces a payload worth reading: it is neither 0 nor
/// beyond the 16 MiB ceiling. A corrupt length is skipped without reading
/// any payload bytes.
pub fn payload_length_ok(len: u32) -> (ok: bool)
    ensures
        ok <==> (1 <= len && len <= MAX_NAL_SIZE),
{
    len != 0 && len <= MAX_NAL_SIZE
}

/// The ASCII magic `CTRL` that marks a control payload.
pub open spec fn control_magic() -> Seq<u8> {
    seq![0x43u8, 0x54u8, 0x52u8, 0x4cu8]
}

/// The payload belongs to the control channel.
pub open spec fn is_control_payload(s: Seq<u8>) -> bool {
    s.len() >= 4 && s.subrange(0, 4) == control_magic()
}

/// Classify and consume one length-prefixed payload. A control payload
/// (leading `CTRL` magic) is applied to the shared rotation state and
/// yields no NAL; any other payload is returned as one normalized NAL
/// unit, ready for the decoder, with the rotation state untouched.
pub fn process_payload(payload: &[u8], rotation: &mut u32) -> (r: Option<Vec<u8>>)
    ensures
        is_control_payload(payload@) ==> {
            &&& r is None
            &&& match rotation_update(payload@.skip(4)) {
                Some(angle) => *final(rotation) == angle,
                None => *final(rotation) == *old(rotation),
            }
        },
        !is_control_payload(payload@) ==> {
            &&& *final(rotation) == *old(rotation)
            &&& match r {
                Some(nal) => nal@ == spec_normalize_nal(payload@) && has_annexb_prefix(nal@),
                None => false,
            }
        },
{
    if payload.len() >= 4 && payload[0] == 0x43 && payload[1] == 0x54 && payload[2] == 0x52
        && payload[3] == 0x4c {
        proof {
            assert(payload@.subrange(0, 4) =~= control_magic());
        }
        let body = slice_subrange(payload, 4, payload.len());
        proof {
            assert(body@ =~= payload@.skip(4));
        }
        handle_control_message(body, rotation);
        None
    } else {
        proof {
            if payload@.len() >= 4 && payload@.subrange(0, 4) == control_magic() {
                assert(payload@[0] == payload@.subrange(0, 4)[0]);
                assert(payload@[1] == payload@.subrange(0, 4)[1]);
                assert(payload@[2] == payload@.subrange(0, 4)[2]);
                assert(payload@[3] == payload@.subrange(0, 4)[3]);
            }
        }
        Some(normalize_nal(payload))
    }
}

} // verus!
