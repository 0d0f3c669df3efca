//! The read cursor: a borrowed buffer and a position that only moves forward.
use crate::error::CodecError;
use crate::wire::{from_le16, from_le32, from_le64};
use vstd::bytes::*;
use vstd::prelude::*;
use vstd::slice::slice_subrange;

verus! {

/// A position in a borrowed byte buffer; every read checks the bounds and
/// advances by the width it read.
pub struct ReadCursor<'a> {
    buf: &'a [u8],
    pos: usize,
}

impl<'a> ReadCursor<'a> {
    pub closed spec fn bytes(&self) -> Seq<u8> {
        self.buf@
    }

    pub closed spec fn pos(&self) -> nat {
        self.pos as nat
    }

    /// What is left to read.
    pub open spec fn rest(&self) -> Seq<u8> {
        self.bytes().skip(self.pos() as int)
    }

    pub open spec fn wf(&self) -> bool {
        self.pos() <= self.bytes().len()
    }

    pub fn new(buf: &'a [u8]) -> (r: Self)
        ensures
            r.wf(),
            r.bytes() == buf@,
            r.pos() == 0,
    {
        ReadCursor { buf, pos: 0 }
    }

    pub fn position(&self) -> (r: usize)
        ensures
            r == self.pos(),
    {
        self.pos
    }

    /// Bytes left to read.
    pub fn remaining(&self) -> (r: usize)
        requires
            self.wf(),
        ensures
            r == self.rest().len(),
    {
        self.buf.len() - self.pos
    }

    pub fn buffer(&self) -> (r: &'a [u8])
        ensures
            r@ == self.bytes(),
    {
        self.buf
    }

    /// Takes the next `n` bytes as a view into the buffer, without copying.
    pub fn get_bytes(&mut self, n: usize) -> (r: Result<&'a [u8], CodecError>)
        requires
            old(self).wf(),
        ensures
            final(self).wf(),
            final(self).bytes() == old(self).bytes(),
            match r {
                Ok(v) => n <= old(self).rest().len() && v@ == old(self).rest().take(n as int)
                    && final(self).pos() == old(self).pos() + n,
                Err(e) => n > old(self).rest().len() && e == CodecError::OutOfBounds
                    && final(self).pos() == old(self).pos(),
            },
    {
        if n > self.buf.len() - self.pos {
            return Err(CodecError::OutOfBounds);
        }
        let v = slice_subrange(self.buf, self.pos, self.pos + n);
        assert(v@ =~= self.buf@.skip(self.pos as int).take(n as int));
        self.pos = self.pos + n;
        Ok(v)
    }


    /// Reads one byte.
    pub fn get_u8(&mut self) -> (r: Result<u8, CodecError>)
        requires
            old(self).wf(),
        ensures
            final(self).wf(),
            final(self).bytes() == old(self).bytes(),
            match r {
                Ok(v) => 1 <= old(self).rest().len() && v == old(self).rest()[0]
                    && final(self).pos() == old(self).pos() + 1,
                Err(e) => old(self).rest().len() < 1 && e == CodecError::OutOfBounds
                    && final(self).pos() == old(self).pos(),
            },
    {
        if self.pos >= self.buf.len() {
            return Err(CodecError::OutOfBounds);
        }
        let v = self.buf[self.pos];
        self.pos = self.pos + 1;
        Ok(v)
    }

    /// Reads a little-endian `u16`.
    pub fn get_u16(&mut self) -> (r: Result<u16, CodecError>)
        requires
            old(self).wf(),
        ensures
            final(self).wf(),
            final(self).bytes() == old(self).bytes(),
            match r {
                Ok(v) => 2 <= old(self).rest().len() && v == from_le16(old(self).rest())
                    && final(self).pos() == old(self).pos() + 2,
                Err(e) => old(self).rest().len() < 2 && e == CodecError::OutOfBounds
                    && final(self).pos() == old(self).pos(),
            },
    {
        let b = self.get_bytes(2)?;
        proof {
            assert(b@ =~= old(self).rest().subrange(0, 2));
        }
        Ok(u16_from_le_bytes(b))
    }

    /// Reads a little-endian `u32`.
    pub fn get_u32(&mut self) -> (r: Result<u32, CodecError>)
        requires
            old(self).wf(),
        ensures
            final(self).wf(),
            final(self).bytes() == old(self).bytes(),
            match r {
                Ok(v) => 4 <= old(self).rest().len() && v == from_le32(old(self).rest())
                    && final(self).pos() == old(self).pos() + 4,
                Err(e) => old(self).rest().len() < 4 && e == CodecError::OutOfBounds
                    && final(self).pos() == old(self).pos(),
            },
    {
        let b = self.get_bytes(4)?;
        proof {
            assert(b@ =~= old(self).rest().subrange(0, 4));
        }
        Ok(u32_from_le_bytes(b))
    }

    /// Reads a little-endian `u64`.
    pub fn get_u64(&mut self) -> (r: Result<u64, CodecError>)
        requires
            old(self).wf(),
        ensures
            final(self).wf(),
            final(self).bytes() == old(self).bytes(),
            match r {
                Ok(v) => 8 <= old(self).rest().len() && v == from_le64(old(self).rest())
                    && final(self).pos() == old(self).pos() + 8,
                Err(e) => old(self).rest().len() < 8 && e == CodecError::OutOfBounds
                    && final(self).pos() == old(self).pos(),
            },
    {
        let b = self.get_bytes(8)?;
        proof {
            assert(b@ =~= old(self).rest().subrange(0, 8));
        }
        Ok(u64_from_le_bytes(b))
    }
}

} // verus!
