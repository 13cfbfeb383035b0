//! In-band control sub-protocol.
//!
//! A control payload (magic prefix already stripped) starts with a one-byte
//! message-type tag. Tag `0x01` carries a big-endian 16-bit rotation angle
//! in degrees that replaces the shared rotation state. Anything malformed
//! or unknown is ignored: control-plane trouble never touches the video
//! path.

use vstd::prelude::*;
use vstd::slice::slice_subrange;

verus! {

/// The big-endian 16-bit value held in the first two bytes of `s`.
pub open spec fn spec_be_u16(s: Seq<u8>) -> int {
    s[0] * 256 + s[1]
}

/// The rotation angle a control payload carries, if it is a well-formed
/// rotation message: tag `0x01` followed by at least two angle bytes.
pub open spec fn rotation_update(data: Seq<u8>) -> Option<u32> {
    if data.len() >= 3 && data[0] == 0x01u8 {
        Some(spec_be_u16(data.subrange(1, 3)) as u32)
    } else {
        None
    }
}

/// Read a big-endian 16-bit integer from the first two bytes of `b`.
pub fn be_u16(b: &[u8]) -> (r: u16)
    requires
        b@.len() >= 2,
    ensures
        r == spec_be_u16(b@.subrange(0, 2)),
{
    let hi = b[0] as u16;
    let lo = b[1] as u16;
    proof {
        assert(b@.subrange(0, 2)[0] == b@[0]);
        assert(b@.subrange(0, 2)[1] == b@[1]);
    }
    hi * 256 + lo
}

/// Interpret one control payload (magic prefix stripped) against the shared
/// rotation state: a well-formed rotation message replaces the value, and
/// every other payload — empty, unknown tag, or truncated — leaves it
/// unchanged.
pub fn handle_control_message(data: &[u8], rotation: &mut u32)
    ensures
        match rotation_update(data@) {
            Some(angle) => *final(rotation) == angle,
            None => *final(rotation) == *old(rotation),
        },
{
    if data.len() == 0 {
        return;
    }
    let msg_type = data[0];
    if msg_type == 0x01 {
        if data.len() >= 3 {
            let rest = slice_subrange(data, 1, data.len());
            let angle = be_u16(rest) as u32;
            proof {
                assert(rest@.subrange(0, 2) =~= data@.subrange(1, 3));
            }
            *rotation = angle;
        }
        // A rotation message shorter than 3 bytes is ignored.
    }
    // Unknown tags are a forward-compatible no-op.
}

} // verus!
