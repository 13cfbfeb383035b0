//! Ingestion and framing engine for a live H.264 viewer.
//!
//! The library demultiplexes an untrusted byte stream into NAL units under
//! two wire framings (4-byte big-endian length prefixes, or raw Annex-B with
//! in-band start codes), interprets an interleaved control sub-protocol,
//! converts decoded planar YUV 4:2:0 pictures to packed RGBA, and hands
//! display-ready frames to a bounded drop-on-full dispatch queue.
//!
//! All I/O, the H.264 decoder itself, and the render loop live outside this
//! crate; the functions here work on plain byte buffers and integers.

use vstd::prelude::*;

pub mod annexb;
pub mod control;
pub mod convert;
pub mod discovery;
pub mod dispatch;
pub mod fps;
pub mod length_prefixed;
pub mod scan;

verus! {

/// Decoded RGBA frame ready for display.
pub struct RgbFrame {
    pub width: u32,
    pub height: u32,
    /// Packed RGBA pixels, 4 bytes per pixel, row-major.
    pub data: Vec<u8>,
}

/// Wire framing convention for one TCP session.
#[derive(Clone, Copy, Debug, PartialEq, Eq, Structural)]
pub enum FramingMode {
    /// Decide between the two concrete modes from the first 4 bytes.
    Auto,
    /// Each payload is preceded by a 4-byte big-endian length.
    LengthPrefixed,
    /// Raw H.264 byte stream delimited by start codes.
    AnnexB,
}

/// The canonical 4-byte Annex-B start code.
pub open spec fn four_byte_start_code() -> Seq<u8> {
    seq![0u8, 0u8, 0u8, 1u8]
}

/// Resolve `FramingMode::Auto` from the first 4 bytes of a fresh connection:
/// a leading 4-byte start code means Annex-B, anything else is taken as the
/// first big-endian length field of a length-prefixed stream.
pub fn detect_framing(peek: &[u8]) -> (m: FramingMode)
    requires
        peek@.len() == 4,
    ensures
        m == (if peek@ == four_byte_start_code() {
            FramingMode::AnnexB
        } else {
            FramingMode::LengthPrefixed
        }),
{
    if peek[0] == 0x00 && peek[1] == 0x00 && peek[2] == 0x00 && peek[3] == 0x01 {
        proof {
            assert(peek@ =~= four_byte_start_code());
        }
        FramingMode::AnnexB
    } else {
        proof {
            assert(peek@ != four_byte_start_code());
        }
        FramingMode::LengthPrefixed
    }
}

} // verus!
