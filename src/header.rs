//! The message header and the repeating-group header: fixed-width integer
//! records at the cursor's position.
use crate::error::CodecError;
use crate::reader::ReadCursor;
use crate::wire::{from_le16, le16};
use crate::writer::WriteCursor;
use vstd::bytes::*;
use vstd::prelude::*;

verus! {

/// The header that precedes every message.
#[derive(Debug, Clone, Copy, PartialEq, Eq, Structural)]
pub struct MessageHeader {
    /// Bytes of the top-level fixed block, the header excluded.
    pub block_length: u16,
    pub template_id: u16,
    pub schema_id: u16,
    pub version: u16,
}

/// The header that precedes the elements of a repeating group.
#[derive(Debug, Clone, Copy, PartialEq, Eq, Structural)]
pub struct GroupHeader {
    /// Bytes of one element's fixed block.
    pub block_length: u16,
    pub num_in_group: u16,
}

pub open spec fn header_wire(h: MessageHeader) -> Seq<u8> {
    le16(h.block_length) + le16(h.template_id) + le16(h.schema_id) + le16(h.version)
}

/// The header at the start of `s`, if `s` is long enough to hold one.
pub open spec fn parse_header(s: Seq<u8>) -> Option<MessageHeader> {
    if s.len() >= 8 {
        Some(
            MessageHeader {
                block_length: from_le16(s),
                template_id: from_le16(s.skip(2)),
                schema_id: from_le16(s.skip(4)),
                version: from_le16(s.skip(6)),
            },
        )
    } else {
        None
    }
}

pub open spec fn group_header_wire(g: GroupHeader) -> Seq<u8> {
    le16(g.block_length) + le16(g.num_in_group)
}

pub open spec fn parse_group_header(s: Seq<u8>) -> Option<GroupHeader> {
    if s.len() >= 4 {
        Some(GroupHeader { block_length: from_le16(s), num_in_group: from_le16(s.skip(2)) })
    } else {
        None
    }
}

pub proof fn lemma_skip_skip(s: Seq<u8>, a: int, b: int)
    requires
        0 <= a,
        0 <= b,
        a + b <= s.len(),
    ensures
        s.skip(a).skip(b) == s.skip(a + b),
{
    assert(s.skip(a).skip(b) =~= s.skip(a + b));
}

/// Reading `le16(v)` back at the start of any longer sequence gives `v`.
pub proof fn lemma_le16_prefix(v: u16, rest: Seq<u8>)
    ensures
        from_le16(le16(v) + rest) == v,
        le16(v).len() == 2,
{
    lemma_auto_spec_u16_to_from_le_bytes();
    assert((le16(v) + rest).subrange(0, 2) =~= le16(v));
}

/// A header written and read back is the same header, whatever follows it.
pub proof fn lemma_header_round_trip(h: MessageHeader, rest: Seq<u8>)
    ensures
        header_wire(h).len() == 8,
        parse_header(header_wire(h) + rest) == Some(h),
{
    let s = header_wire(h) + rest;
    lemma_le16_prefix(h.block_length, s.skip(2));
    lemma_le16_prefix(h.template_id, s.skip(4));
    lemma_le16_prefix(h.schema_id, s.skip(6));
    lemma_le16_prefix(h.version, rest);
    assert(s =~= le16(h.block_length) + s.skip(2));
    assert(s.skip(2) =~= le16(h.template_id) + s.skip(4));
    assert(s.skip(4) =~= le16(h.schema_id) + s.skip(6));
    assert(s.skip(6) =~= le16(h.version) + rest);
}

/// A group header written and read back is the same, whatever follows it.
pub proof fn lemma_group_header_round_trip(g: GroupHeader, rest: Seq<u8>)
    ensures
        group_header_wire(g).len() == 4,
        parse_group_header(group_header_wire(g) + rest) == Some(g),
{
    let s = group_header_wire(g) + rest;
    lemma_le16_prefix(g.block_length, s.skip(2));
    lemma_le16_prefix(g.num_in_group, rest);
    assert(s =~= le16(g.block_length) + s.skip(2));
    assert(s.skip(2) =~= le16(g.num_in_group) + rest);
}

impl<'a> ReadCursor<'a> {
    /// Reads the message header.
    pub fn get_header(&mut self) -> (r: Result<MessageHeader, CodecError>)
        requires
            old(self).wf(),
        ensures
            final(self).wf(),
            final(self).bytes() == old(self).bytes(),
            match r {
                Ok(h) => parse_header(old(self).rest()) == Some(h) && final(self).pos()
                    == old(self).pos() + 8,
                Err(e) => parse_header(old(self).rest()) is None && e == CodecError::OutOfBounds,
            },
    {
        if self.remaining() < 8 {
            return Err(CodecError::OutOfBounds);
        }
        let ghost p = self.pos() as int;
        let block_length = self.get_u16()?;
        proof { lemma_skip_skip(self.bytes(), p, 2); }
        let template_id = self.get_u16()?;
        proof { lemma_skip_skip(self.bytes(), p, 4); }
        let schema_id = self.get_u16()?;
        proof { lemma_skip_skip(self.bytes(), p, 6); }
        let version = self.get_u16()?;
        Ok(MessageHeader { block_length, template_id, schema_id, version })
    }

    /// Reads a repeating group's header.
    pub fn get_group_header(&mut self) -> (r: Result<GroupHeader, CodecError>)
        requires
            old(self).wf(),
        ensures
            final(self).wf(),
            final(self).bytes() == old(self).bytes(),
            match r {
                Ok(g) => parse_group_header(old(self).rest()) == Some(g) && final(self).pos()
                    == old(self).pos() + 4,
                Err(e) => parse_group_header(old(self).rest()) is None && e
                    == CodecError::OutOfBounds,
            },
    {
        if self.remaining() < 4 {
            return Err(CodecError::OutOfBounds);
        }
        let ghost p = self.pos() as int;
        let block_length = self.get_u16()?;
        proof { lemma_skip_skip(self.bytes(), p, 2); }
        let num_in_group = self.get_u16()?;
        Ok(GroupHeader { block_length, num_in_group })
    }
}

impl WriteCursor {
    /// Writes the message header.
    pub fn put_header(&mut self, h: &MessageHeader) -> (r: Result<(), CodecError>)
        requires
            old(self).wf(),
        ensures
            final(self).wf(),
            final(self).bytes().len() == old(self).bytes().len(),
            match r {
                Ok(_) => 8 <= old(self).room() && final(self).written() == old(self).written()
                    + header_wire(*h) && final(self).pos() == old(self).pos() + 8,
                Err(e) => old(self).room() < 8 && e == CodecError::OutOfBounds,
            },
    {
        if self.room_left() < 8 {
            return Err(CodecError::OutOfBounds);
        }
        let ghost w0 = self.written();
        self.put_u16(h.block_length)?;
        self.put_u16(h.template_id)?;
        self.put_u16(h.schema_id)?;
        self.put_u16(h.version)?;
        assert(self.written() =~= w0 + header_wire(*h));
        Ok(())
    }

    /// Writes a repeating group's header.
    pub fn put_group_header(&mut self, g: &GroupHeader) -> (r: Result<(), CodecError>)
        requires
            old(self).wf(),
        ensures
            final(self).wf(),
            final(self).bytes().len() == old(self).bytes().len(),
            match r {
                Ok(_) => 4 <= old(self).room() && final(self).written() == old(self).written()
                    + group_header_wire(*g) && final(self).pos() == old(self).pos() + 4,
                Err(e) => old(self).room() < 4 && e == CodecError::OutOfBounds,
            },
    {
        if self.room_left() < 4 {
            return Err(CodecError::OutOfBounds);
        }
        let ghost w0 = self.written();
        self.put_u16(g.block_length)?;
        self.put_u16(g.num_in_group)?;
        assert(self.written() =~= w0 + group_header_wire(*g));
        Ok(())
    }
}

} // verus!
