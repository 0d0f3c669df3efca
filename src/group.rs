//! Counting the elements of a repeating group, when reading and when writing.
use crate::error::CodecError;
use vstd::prelude::*;

verus! {

/// The outcome of asking a group for its next element: another element is
/// there, or the group is exhausted and the message goes on.
pub enum Step<E, D> {
    HasElement(E),
    Exhausted(D),
}

/// How far the reading of a group has come.
#[derive(Debug, Clone, Copy, PartialEq, Eq, Structural)]
pub struct GroupReader {
    pub block_length: u16,
    pub count: u16,
    pub produced: u16,
}

/// The next step of `g`: an element while fewer than `count` were produced.
pub open spec fn reader_step(g: GroupReader) -> Step<GroupReader, GroupReader> {
    if g.produced < g.count {
        Step::HasElement(GroupReader { produced: (g.produced + 1) as u16, ..g })
    } else {
        Step::Exhausted(g)
    }
}

/// `g` after `k` elements were produced.
pub open spec fn reader_after(g: GroupReader, k: nat) -> GroupReader
    decreases k,
{
    if k == 0 {
        g
    } else {
        match reader_step(reader_after(g, (k - 1) as nat)) {
            Step::HasElement(n) => n,
            Step::Exhausted(d) => d,
        }
    }
}

impl GroupReader {
    /// A group of `count` elements of `block_length` bytes each, none read yet.
    pub fn new(block_length: u16, count: u16) -> (r: Self)
        ensures
            r == (GroupReader { block_length, count, produced: 0 }),
    {
        GroupReader { block_length, count, produced: 0 }
    }

    pub fn next(self) -> (r: Step<GroupReader, GroupReader>)
        ensures
            r == reader_step(self),
    {
        if self.produced < self.count {
            Step::HasElement(GroupReader { produced: self.produced + 1, ..self })
        } else {
            Step::Exhausted(self)
        }
    }
}

/// A group read from its start yields exactly `count` elements, then is
/// exhausted.
pub proof fn lemma_group_cardinality(block_length: u16, count: u16, k: nat)
    ensures
        k <= count ==> reader_after(GroupReader { block_length, count, produced: 0 }, k)
            == (GroupReader { block_length, count, produced: k as u16 }),
        k < count ==> reader_step(
            reader_after(GroupReader { block_length, count, produced: 0 }, k),
        ) is HasElement,
        k == count ==> reader_step(
            reader_after(GroupReader { block_length, count, produced: 0 }, k),
        ) is Exhausted,
    decreases k,
{
    if k > 0 {
        lemma_group_cardinality(block_length, count, (k - 1) as nat);
    }
}

/// How far the writing of a group has come against its declared count.
#[derive(Debug, Clone, Copy, PartialEq, Eq, Structural)]
pub struct GroupWriter {
    pub declared: u16,
    pub written: u16,
}

impl GroupWriter {
    pub fn new(declared: u16) -> (r: Self)
        ensures
            r == (GroupWriter { declared, written: 0 }),
    {
        GroupWriter { declared, written: 0 }
    }

    /// Counts one more element; fails once the declared count is reached.
    pub fn begin_element(&mut self) -> (r: Result<(), CodecError>)
        ensures
            final(self).declared == old(self).declared,
            match r {
                Ok(_) => old(self).written < old(self).declared && final(self).written
                    == old(self).written + 1,
                Err(e) => old(self).written >= old(self).declared && e
                    == CodecError::LengthMismatch && final(self).written == old(self).written,
            },
    {
        if self.written >= self.declared {
            return Err(CodecError::LengthMismatch);
        }
        self.written = self.written + 1;
        Ok(())
    }

    /// Succeeds only when as many elements were written as declared.
    pub fn finish(&self) -> (r: Result<(), CodecError>)
        ensures
            r is Ok <==> self.written == self.declared,
            r is Err ==> r == Err::<(), _>(CodecError::LengthMismatch),
    {
        if self.written == self.declared {
            Ok(())
        } else {
            Err(CodecError::LengthMismatch)
        }
    }
}

} // verus!
