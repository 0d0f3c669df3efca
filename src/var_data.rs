//! Variable-length data: a `u32` length prefix followed by exactly that many
//! raw bytes, read back as a view into the buffer.
use crate::error::CodecError;
use crate::header::lemma_skip_skip;
use crate::reader::ReadCursor;
use crate::wire::{from_le32, le32};
use crate::writer::WriteCursor;
use vstd::bytes::*;
use vstd::prelude::*;
use vstd::string::*;
use vstd::utf8::valid_utf8;

verus! {

/// Longest data that a `u32` length prefix can announce.
pub const MAX_VAR_DATA: usize = 0xffff_ffff;

pub open spec fn var_data_wire(d: Seq<u8>) -> Seq<u8>
    recommends
        d.len() <= MAX_VAR_DATA,
{
    le32(d.len() as u32) + d
}

/// The data at the start of `s`, if its prefix and all the bytes it
/// announces are there.
pub open spec fn parse_var_data(s: Seq<u8>) -> Option<Seq<u8>> {
    if s.len() >= 4 && from_le32(s) <= s.len() - 4 {
        Some(s.subrange(4, 4 + from_le32(s)))
    } else {
        None
    }
}

proof fn lemma_le32_prefix(v: u32, rest: Seq<u8>)
    ensures
        from_le32(le32(v) + rest) == v,
        le32(v).len() == 4,
{
    lemma_auto_spec_u32_to_from_le_bytes();
    assert((le32(v) + rest).subrange(0, 4) =~= le32(v));
}

/// Data written and read back is the same data, whatever follows it.
pub proof fn lemma_var_data_round_trip(d: Seq<u8>, rest: Seq<u8>)
    requires
        d.len() <= MAX_VAR_DATA,
    ensures
        var_data_wire(d).len() == 4 + d.len(),
        parse_var_data(var_data_wire(d) + rest) == Some(d),
{
    let s = var_data_wire(d) + rest;
    lemma_le32_prefix(d.len() as u32, d + rest);
    assert(s =~= le32(d.len() as u32) + (d + rest));
    assert(s.subrange(4, 4 + d.len() as int) =~= d);
}

/// Any strict prefix of written data fails to read.
pub proof fn lemma_var_data_truncated(d: Seq<u8>, k: int)
    requires
        d.len() <= MAX_VAR_DATA,
        0 <= k < 4 + d.len(),
    ensures
        parse_var_data(var_data_wire(d).take(k)) is None,
{
    let s = var_data_wire(d).take(k);
    lemma_le32_prefix(d.len() as u32, d);
    if k >= 4 {
        lemma_le32_prefix(d.len() as u32, s.skip(4));
        assert(s =~= le32(d.len() as u32) + s.skip(4));
    }
}

/// What is read has exactly the length that its prefix announces.
pub proof fn lemma_var_data_length(s: Seq<u8>)
    requires
        parse_var_data(s) is Some,
    ensures
        parse_var_data(s).unwrap().len() == from_le32(s),
        4 + from_le32(s) <= s.len(),
{
}

/// Relies on std::str::from_utf8: it accepts exactly the valid UTF-8
/// sequences and then views the same bytes as text.
#[verifier::external_body]
fn str_from_utf8(b: &[u8]) -> (r: Option<&str>)
    ensures
        r is Some <==> valid_utf8(b@),
        r matches Some(t) ==> t.spec_bytes() == b@,
{
    std::str::from_utf8(b).ok()
}

/// Tells whether `b` is valid UTF-8 text.
pub fn is_utf8(b: &[u8]) -> (r: bool)
    ensures
        r == valid_utf8(b@),
{
    str_from_utf8(b).is_some()
}

impl<'a> ReadCursor<'a> {
    /// Reads variable-length data as a view into the buffer, without copying.
    pub fn get_var_data(&mut self) -> (r: Result<&'a [u8], CodecError>)
        requires
            old(self).wf(),
        ensures
            final(self).wf(),
            final(self).bytes() == old(self).bytes(),
            match r {
                Ok(v) => parse_var_data(old(self).rest()) == Some(v@) && v@.len() == from_le32(
                    old(self).rest(),
                ) && final(self).pos() == old(self).pos() + 4 + v@.len(),
                Err(e) => parse_var_data(old(self).rest()) is None && e == CodecError::OutOfBounds,
            },
    {
        let ghost p = self.pos() as int;
        let ghost s = self.rest();
        let len = self.get_u32()?;
        proof { lemma_skip_skip(self.bytes(), p, 4); }
        let v = self.get_bytes(len as usize)?;
        assert(v@ =~= s.subrange(4, 4 + len));
        Ok(v)
    }

    /// Reads variable-length data that holds UTF-8 text.
    pub fn get_var_str(&mut self) -> (r: Result<&'a str, CodecError>)
        requires
            old(self).wf(),
        ensures
            final(self).wf(),
            final(self).bytes() == old(self).bytes(),
            match r {
                Ok(t) => parse_var_data(old(self).rest()) is Some && valid_utf8(
                    parse_var_data(old(self).rest()).unwrap(),
                ) && t.spec_bytes() == parse_var_data(old(self).rest()).unwrap() && final(self).pos()
                    == old(self).pos() + 4 + t.spec_bytes().len(),
                Err(e) => match parse_var_data(old(self).rest()) {
                    None => e == CodecError::OutOfBounds,
                    Some(d) => !valid_utf8(d) && e == CodecError::MalformedUtf8,
                },
            },
    {
        let v = self.get_var_data()?;
        match str_from_utf8(v) {
            Some(t) => Ok(t),
            None => Err(CodecError::MalformedUtf8),
        }
    }
}

impl WriteCursor {
    /// Writes `d` with its length prefix.
    pub fn put_var_data(&mut self, d: &[u8]) -> (r: Result<(), CodecError>)
        requires
            old(self).wf(),
        ensures
            final(self).wf(),
            final(self).bytes().len() == old(self).bytes().len(),
            match r {
                Ok(_) => d@.len() <= MAX_VAR_DATA && 4 + d@.len() <= old(self).room()
                    && final(self).written() == old(self).written() + var_data_wire(d@)
                    && final(self).pos() == old(self).pos() + 4 + d@.len(),
                Err(e) => if d@.len() > MAX_VAR_DATA {
                    e == CodecError::LengthMismatch
                } else {
                    4 + d@.len() > old(self).room() && e == CodecError::OutOfBounds
                },
            },
    {
        if d.len() > MAX_VAR_DATA {
            return Err(CodecError::LengthMismatch);
        }
        if self.room_left() < 4 || self.room_left() - 4 < d.len() {
            return Err(CodecError::OutOfBounds);
        }
        let ghost w0 = self.written();
        self.put_u32(d.len() as u32)?;
        self.put_bytes(d)?;
        assert(self.written() =~= w0 + var_data_wire(d@));
        Ok(())
    }
}

} // verus!
