//! The byte layout of the wire format, as spec functions over byte sequences.
use vstd::bytes::*;
use vstd::prelude::*;

verus! {

/// Width of the message header: four `u16` fields.
pub const HEADER_WIDTH: usize = 8;

/// Width of a repeating group's header: element block length and count, two `u16`.
pub const GROUP_HEADER_WIDTH: usize = 4;

/// Width of the length prefix of variable-length data: one `u32`.
pub const VAR_LENGTH_WIDTH: usize = 4;

pub open spec fn le16(v: u16) -> Seq<u8> {
    spec_u16_to_le_bytes(v)
}

pub open spec fn le32(v: u32) -> Seq<u8> {
    spec_u32_to_le_bytes(v)
}

pub open spec fn le64(v: u64) -> Seq<u8> {
    spec_u64_to_le_bytes(v)
}

/// The `u16` held little-endian in the first two bytes of `s`.
pub open spec fn from_le16(s: Seq<u8>) -> u16 {
    spec_u16_from_le_bytes(s.subrange(0, 2))
}

pub open spec fn from_le32(s: Seq<u8>) -> u32 {
    spec_u32_from_le_bytes(s.subrange(0, 4))
}

pub open spec fn from_le64(s: Seq<u8>) -> u64 {
    spec_u64_from_le_bytes(s.subrange(0, 8))
}

} // verus!
