//! The write cursor: an owned buffer of fixed length and a position that only
//! moves forward.
use crate::error::CodecError;
use crate::wire::{le16, le32, le64};
use vstd::bytes::*;
use vstd::prelude::*;

verus! {

/// A position in an owned byte buffer of fixed length; every write checks
/// the bounds and advances by the width it wrote.
pub struct WriteCursor {
    buf: Vec<u8>,
    pos: usize,
}

impl WriteCursor {
    pub closed spec fn bytes(&self) -> Seq<u8> {
        self.buf@
    }

    pub closed spec fn pos(&self) -> nat {
        self.pos as nat
    }

    /// What has been written so far.
    pub open spec fn written(&self) -> Seq<u8> {
        self.bytes().take(self.pos() as int)
    }

    /// Room left before the end of the buffer.
    pub open spec fn room(&self) -> int {
        self.bytes().len() - self.pos()
    }

    pub open spec fn wf(&self) -> bool {
        self.pos() <= self.bytes().len()
    }

    /// Starts writing at the beginning of `buf`, whose length bounds the message.
    pub fn new(buf: Vec<u8>) -> (r: Self)
        ensures
            r.wf(),
            r.bytes() == buf@,
            r.pos() == 0,
    {
        WriteCursor { buf, pos: 0 }
    }

    pub fn position(&self) -> (r: usize)
        ensures
            r == self.pos(),
    {
        self.pos
    }

    /// Bytes left before the end of the buffer.
    pub fn room_left(&self) -> (r: usize)
        requires
            self.wf(),
        ensures
            r == self.room(),
    {
        self.buf.len() - self.pos
    }

    /// Ends the pass: the position reached and the buffer back.
    pub fn finish(self) -> (r: (usize, Vec<u8>))
        ensures
            r.0 == self.pos(),
            r.1@ == self.bytes(),
    {
        (self.pos, self.buf)
    }

    /// Copies `data` to the position and advances past it.
    pub fn put_bytes(&mut self, data: &[u8]) -> (r: Result<(), CodecError>)
        requires
            old(self).wf(),
        ensures
            final(self).wf(),
            final(self).bytes().len() == old(self).bytes().len(),
            match r {
                Ok(_) => data@.len() <= old(self).room()
                    && final(self).bytes() == old(self).written() + data@ + old(self).bytes().skip(
                    (old(self).pos() + data@.len()) as int,
                ) && final(self).pos() == old(self).pos() + data@.len(),
                Err(e) => data@.len() > old(self).room() && e == CodecError::OutOfBounds
                    && *final(self) == *old(self),
            },
    {
        if data.len() > self.buf.len() - self.pos {
            return Err(CodecError::OutOfBounds);
        }
        let ghost start = self.pos as int;
        let ghost before = self.buf@;
        let mut i: usize = 0;
        while i < data.len()
            invariant
                0 <= i <= data@.len(),
                start + data@.len() <= before.len(),
                self.pos == start,
                self.buf@.len() == before.len(),
                forall|k: int| 0 <= k < start ==> self.buf@[k] == before[k],
                forall|k: int| 0 <= k < i ==> self.buf@[start + k] == data@[k],
                forall|k: int| start + data@.len() <= k < before.len() ==> self.buf@[k] == before[k],
            decreases data@.len() - i,
        {
            assert(self.pos + i < self.buf.len());
            self.buf.set(self.pos + i, data[i]);
            i = i + 1;
        }
        self.pos = self.pos + data.len();
        assert(self.buf@ =~= before.take(start) + data@ + before.skip(start + data@.len()));
        Ok(())
    }

    /// Writes `data` into a fixed-size array field of `width` bytes: the
    /// bytes that `data` does not fill are zero.
    pub fn put_padded(&mut self, data: &[u8], width: usize) -> (r: Result<(), CodecError>)
        requires
            old(self).wf(),
        ensures
            final(self).wf(),
            final(self).bytes().len() == old(self).bytes().len(),
            match r {
                Ok(_) => data@.len() <= width && width <= old(self).room() && final(self).written()
                    == old(self).written() + padded(data@, width as nat) && final(self).pos()
                    == old(self).pos() + width,
                Err(e) => if data@.len() > width {
                    e == CodecError::LengthMismatch
                } else {
                    width > old(self).room() && e == CodecError::OutOfBounds
                },
            },
    {
        if data.len() > width {
            return Err(CodecError::LengthMismatch);
        }
        if width > self.buf.len() - self.pos {
            return Err(CodecError::OutOfBounds);
        }
        let mut field: Vec<u8> = Vec::new();
        let mut i: usize = 0;
        while i < width
            invariant
                data@.len() <= width,
                i <= width,
                field@ =~= padded(data@, width as nat).take(i as int),
            decreases width - i,
        {
            if i < data.len() {
                field.push(data[i]);
            } else {
                field.push(0u8);
            }
            i = i + 1;
        }
        assert(field@ =~= padded(data@, width as nat));
        let ghost w0 = self.written();
        self.put_bytes(field.as_slice())?;
        assert(self.written() =~= w0 + field@);
        Ok(())
    }

    /// Writes one byte.
    pub fn put_u8(&mut self, v: u8) -> (r: Result<(), CodecError>)
        requires
            old(self).wf(),
        ensures
            final(self).wf(),
            final(self).bytes().len() == old(self).bytes().len(),
            match r {
                Ok(_) => 1 <= old(self).room() && final(self).written() == old(self).written().push(v)
                    && final(self).pos() == old(self).pos() + 1,
                Err(e) => old(self).room() < 1 && e == CodecError::OutOfBounds,
            },
    {
        let mut b: Vec<u8> = Vec::new();
        b.push(v);
        let ghost w0 = self.written();
        self.put_bytes(b.as_slice())?;
        assert(self.written() =~= w0.push(v));
        Ok(())
    }

    /// Writes a little-endian `u16`.
    pub fn put_u16(&mut self, v: u16) -> (r: Result<(), CodecError>)
        requires
            old(self).wf(),
        ensures
            final(self).wf(),
            final(self).bytes().len() == old(self).bytes().len(),
            match r {
                Ok(_) => 2 <= old(self).room() && final(self).written() == old(self).written() + le16(v)
                    && final(self).pos() == old(self).pos() + 2,
                Err(e) => old(self).room() < 2 && e == CodecError::OutOfBounds,
            },
    {
        let b = u16_to_le_bytes(v);
        let ghost w0 = self.written();
        self.put_bytes(b.as_slice())?;
        assert(self.written() =~= w0 + le16(v));
        Ok(())
    }

    /// Writes a little-endian `u32`.
    pub fn put_u32(&mut self, v: u32) -> (r: Result<(), CodecError>)
        requires
            old(self).wf(),
        ensures
            final(self).wf(),
            final(self).bytes().len() == old(self).bytes().len(),
            match r {
                Ok(_) => 4 <= old(self).room() && final(self).written() == old(self).written() + le32(v)
                    && final(self).pos() == old(self).pos() + 4,
                Err(e) => old(self).room() < 4 && e == CodecError::OutOfBounds,
            },
    {
        let b = u32_to_le_bytes(v);
        let ghost w0 = self.written();
        self.put_bytes(b.as_slice())?;
        assert(self.written() =~= w0 + le32(v));
        Ok(())
    }

    /// Writes a little-endian `u64`.
    pub fn put_u64(&mut self, v: u64) -> (r: Result<(), CodecError>)
        requires
            old(self).wf(),
        ensures
            final(self).wf(),
            final(self).bytes().len() == old(self).bytes().len(),
            match r {
                Ok(_) => 8 <= old(self).room() && final(self).written() == old(self).written() + le64(v)
                    && final(self).pos() == old(self).pos() + 8,
                Err(e) => old(self).room() < 8 && e == CodecError::OutOfBounds,
            },
    {
        let b = u64_to_le_bytes(v);
        let ghost w0 = self.written();
        self.put_bytes(b.as_slice())?;
        assert(self.written() =~= w0 + le64(v));
        Ok(())
    }
}

/// `data` followed by zero bytes up to `width`.
pub open spec fn padded(data: Seq<u8>, width: nat) -> Seq<u8> {
    Seq::new(width, |i: int| if i < data.len() { data[i] } else { 0u8 })
}

} // verus!
