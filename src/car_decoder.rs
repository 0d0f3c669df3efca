//! Reading a car message through a chain of consuming accessors: each one
//! offers only the read that comes next in the message, and hands back the
//! accessor for what follows.
use crate::car::{
    car_fields_read_from, Acceleration, CarFields, FuelFigureFields, PerformanceFigureFields,
};
use crate::error::CodecError;
use crate::group::{reader_step, GroupReader, Step};
use crate::header::{lemma_skip_skip, parse_group_header, parse_header, MessageHeader};
use crate::reader::ReadCursor;
use crate::var_data::parse_var_data;
use crate::wire::{from_le16, from_le32};
use vstd::prelude::*;

verus! {

/// `rest` holds one fuel-figures element's fixed fields at its start.
pub open spec fn fuel_figure_read_from(f: FuelFigureFields, s: Seq<u8>) -> bool {
    f.speed == from_le16(s) && f.mpg_bits == from_le32(s.skip(2))
}

pub open spec fn acceleration_read_from(a: Acceleration, s: Seq<u8>) -> bool {
    a.mph == from_le16(s) && a.seconds_bits == from_le32(s.skip(2))
}

/// Skips to the end of a fixed block of `block_length` bytes of which `used`
/// have been read.
fn skip_block_rest(cur: &mut ReadCursor, block_length: u16, used: u16) -> (r: Result<(), CodecError>)
    requires
        old(cur).wf(),
        used <= block_length,
        block_length - used <= old(cur).rest().len(),
    ensures
        final(cur).wf(),
        final(cur).bytes() == old(cur).bytes(),
        final(cur).pos() == old(cur).pos() + (block_length - used),
        r is Ok,
{
    let _ = cur.get_bytes((block_length - used) as usize)?;
    Ok(())
}

/// Starts reading the car message at the start of `buf`.
pub fn start_decoding_car<'a>(buf: &'a [u8]) -> (r: CarDecoder<'a>)
    ensures
        r.wf(),
        r.rest() == buf@,
        r.position() == 0,
{
    let cur = ReadCursor::new(buf);
    assert(cur.rest() =~= buf@);
    CarDecoder { cur }
}

/// Next: the message header.
pub struct CarDecoder<'a> {
    cur: ReadCursor<'a>,
}

/// Next: the top-level fixed fields, in a block of the length the header gave.
pub struct CarFieldsDecoder<'a> {
    cur: ReadCursor<'a>,
    block_length: u16,
}

/// Next: the fuel-figures group header.
pub struct FuelFiguresHeaderDecoder<'a> {
    cur: ReadCursor<'a>,
}

/// Next: the fixed fields of a fuel-figures element.
pub struct FuelFiguresMemberDecoder<'a> {
    cur: ReadCursor<'a>,
    group: GroupReader,
}

/// Next: the usage description of the current fuel-figures element.
pub struct UsageDescriptionDecoder<'a> {
    cur: ReadCursor<'a>,
    group: GroupReader,
}

/// Next: the performance-figures group header.
pub struct PerformanceFiguresHeaderDecoder<'a> {
    cur: ReadCursor<'a>,
}

/// Next: the fixed fields of a performance-figures element.
pub struct PerformanceFiguresMemberDecoder<'a> {
    cur: ReadCursor<'a>,
    group: GroupReader,
}

/// Next: the acceleration group nested in the current performance figure.
pub struct AccelerationHeaderDecoder<'a> {
    cur: ReadCursor<'a>,
    group: GroupReader,
}

/// Next: the manufacturer.
pub struct ManufacturerDecoder<'a> {
    cur: ReadCursor<'a>,
}

/// Next: the model.
pub struct ModelDecoder<'a> {
    cur: ReadCursor<'a>,
}

/// Next: the activation code.
pub struct ActivationCodeDecoder<'a> {
    cur: ReadCursor<'a>,
}

/// The whole message has been read.
pub struct CarDecoderDone<'a> {
    cur: ReadCursor<'a>,
}

impl<'a> CarDecoder<'a> {
    /// What is left to read.
    pub closed spec fn rest(&self) -> Seq<u8> {
        self.cur.rest()
    }

    pub closed spec fn wf(&self) -> bool {
        self.cur.wf()
    }

    /// Where in the buffer the next read starts.
    pub closed spec fn position(&self) -> nat {
        self.cur.pos()
    }
}

impl<'a> CarFieldsDecoder<'a> {
    /// What is left to read.
    pub closed spec fn rest(&self) -> Seq<u8> {
        self.cur.rest()
    }

    pub closed spec fn wf(&self) -> bool {
        self.cur.wf()
    }

    /// Where in the buffer the next read starts.
    pub closed spec fn position(&self) -> nat {
        self.cur.pos()
    }
}

impl<'a> FuelFiguresHeaderDecoder<'a> {
    /// What is left to read.
    pub closed spec fn rest(&self) -> Seq<u8> {
        self.cur.rest()
    }

    pub closed spec fn wf(&self) -> bool {
        self.cur.wf()
    }

    /// Where in the buffer the next read starts.
    pub closed spec fn position(&self) -> nat {
        self.cur.pos()
    }
}

impl<'a> FuelFiguresMemberDecoder<'a> {
    /// What is left to read.
    pub closed spec fn rest(&self) -> Seq<u8> {
        self.cur.rest()
    }

    pub closed spec fn wf(&self) -> bool {
        self.cur.wf()
    }

    /// Where in the buffer the next read starts.
    pub closed spec fn position(&self) -> nat {
        self.cur.pos()
    }

    /// How far the enclosing group has come.
    pub closed spec fn group(&self) -> GroupReader {
        self.group
    }
}

impl<'a> UsageDescriptionDecoder<'a> {
    /// What is left to read.
    pub closed spec fn rest(&self) -> Seq<u8> {
        self.cur.rest()
    }

    pub closed spec fn wf(&self) -> bool {
        self.cur.wf()
    }

    /// Where in the buffer the next read starts.
    pub closed spec fn position(&self) -> nat {
        self.cur.pos()
    }

    /// How far the enclosing group has come.
    pub closed spec fn group(&self) -> GroupReader {
        self.group
    }
}

impl<'a> PerformanceFiguresHeaderDecoder<'a> {
    /// What is left to read.
    pub closed spec fn rest(&self) -> Seq<u8> {
        self.cur.rest()
    }

    pub closed spec fn wf(&self) -> bool {
        self.cur.wf()
    }

    /// Where in the buffer the next read starts.
    pub closed spec fn position(&self) -> nat {
        self.cur.pos()
    }
}

impl<'a> PerformanceFiguresMemberDecoder<'a> {
    /// What is left to read.
    pub closed spec fn rest(&self) -> Seq<u8> {
        self.cur.rest()
    }

    pub closed spec fn wf(&self) -> bool {
        self.cur.wf()
    }

    /// Where in the buffer the next read starts.
    pub closed spec fn position(&self) -> nat {
        self.cur.pos()
    }

    /// How far the enclosing group has come.
    pub closed spec fn group(&self) -> GroupReader {
        self.group
    }
}

impl<'a> AccelerationHeaderDecoder<'a> {
    /// What is left to read.
    pub closed spec fn rest(&self) -> Seq<u8> {
        self.cur.rest()
    }

    pub closed spec fn wf(&self) -> bool {
        self.cur.wf()
    }

    /// Where in the buffer the next read starts.
    pub closed spec fn position(&self) -> nat {
        self.cur.pos()
    }

    /// How far the enclosing group has come.
    pub closed spec fn group(&self) -> GroupReader {
        self.group
    }
}

impl<'a> ManufacturerDecoder<'a> {
    /// What is left to read.
    pub closed spec fn rest(&self) -> Seq<u8> {
        self.cur.rest()
    }

    pub closed spec fn wf(&self) -> bool {
        self.cur.wf()
    }

    /// Where in the buffer the next read starts.
    pub closed spec fn position(&self) -> nat {
        self.cur.pos()
    }
}

impl<'a> ModelDecoder<'a> {
    /// What is left to read.
    pub closed spec fn rest(&self) -> Seq<u8> {
        self.cur.rest()
    }

    pub closed spec fn wf(&self) -> bool {
        self.cur.wf()
    }

    /// Where in the buffer the next read starts.
    pub closed spec fn position(&self) -> nat {
        self.cur.pos()
    }
}

impl<'a> ActivationCodeDecoder<'a> {
    /// What is left to read.
    pub closed spec fn rest(&self) -> Seq<u8> {
        self.cur.rest()
    }

    pub closed spec fn wf(&self) -> bool {
        self.cur.wf()
    }

    /// Where in the buffer the next read starts.
    pub closed spec fn position(&self) -> nat {
        self.cur.pos()
    }
}

impl<'a> CarDecoderDone<'a> {
    /// What is left to read.
    pub closed spec fn rest(&self) -> Seq<u8> {
        self.cur.rest()
    }

    pub closed spec fn wf(&self) -> bool {
        self.cur.wf()
    }

    /// Where in the buffer the next read starts.
    pub closed spec fn position(&self) -> nat {
        self.cur.pos()
    }
}

impl<'a> CarDecoder<'a> {
    /// Reads the message header; the identifiers are handed back unchecked.
    pub fn header(self) -> (r: Result<(MessageHeader, CarFieldsDecoder<'a>), CodecError>)
        requires
            self.wf(),
        ensures
            match r {
                Ok((h, next)) => parse_header(self.rest()) == Some(h) && next.wf() && next.rest()
                    == self.rest().skip(8) && next.position() == self.position() + 8
                    && next.block_length() == h.block_length,
                Err(e) => parse_header(self.rest()) is None && e == CodecError::OutOfBounds,
            },
    {
        let mut cur = self.cur;
        let ghost b = cur.bytes();
        let ghost p = cur.pos() as int;
        let h = cur.get_header()?;
        proof { lemma_skip_skip(b, p, 8); }
        Ok((h, CarFieldsDecoder { cur, block_length: h.block_length }))
    }
}

impl<'a> CarFieldsDecoder<'a> {
    pub closed spec fn block_length(&self) -> u16 {
        self.block_length
    }

    /// Reads the top-level fixed fields, then skips to the end of the block
    /// whose length the header gave.
    pub fn car_fields(self) -> (r: Result<(CarFields, FuelFiguresHeaderDecoder<'a>), CodecError>)
        requires
            self.wf(),
        ensures
            match r {
                Ok((f, next)) => 49 <= self.block_length() <= self.rest().len()
                    && car_fields_read_from(f, self.rest()) && next.wf() && next.rest()
                    == self.rest().skip(self.block_length() as int) && next.position()
                    == self.position() + self.block_length(),
                Err(e) => if self.block_length() < 49 {
                    e == CodecError::LengthMismatch
                } else {
                    self.block_length() > self.rest().len() && e == CodecError::OutOfBounds
                },
            },
    {
        let mut cur = self.cur;
        if self.block_length < 49 {
            return Err(CodecError::LengthMismatch);
        }
        if (self.block_length as usize) > cur.remaining() {
            return Err(CodecError::OutOfBounds);
        }
        let ghost b = cur.bytes();
        let ghost p = cur.pos() as int;
        let f = cur.get_car_fields()?;
        skip_block_rest(&mut cur, self.block_length, 49)?;
        proof { lemma_skip_skip(b, p, self.block_length as int); }
        Ok((f, FuelFiguresHeaderDecoder { cur }))
    }
}

impl<'a> FuelFiguresHeaderDecoder<'a> {
    /// Reads the fuel-figures group header: either the first element is
    /// there, or the group is empty and the performance figures come next.
    pub fn fuel_figures_individually(self) -> (r: Result<
        Step<FuelFiguresMemberDecoder<'a>, PerformanceFiguresHeaderDecoder<'a>>,
        CodecError,
    >)
        requires
            self.wf(),
        ensures
            match r {
                Ok(Step::HasElement(m)) => parse_group_header(self.rest()) matches Some(g)
                    && g.num_in_group > 0 && m.wf() && m.rest() == self.rest().skip(4)
                    && m.group() == (GroupReader {
                    block_length: g.block_length,
                    count: g.num_in_group,
                    produced: 1,
                }),
                Ok(Step::Exhausted(next)) => parse_group_header(self.rest()) matches Some(g)
                    && g.num_in_group == 0 && next.wf() && next.rest() == self.rest().skip(4),
                Err(e) => parse_group_header(self.rest()) is None && e == CodecError::OutOfBounds,
            },
    {
        let mut cur = self.cur;
        let ghost b = cur.bytes();
        let ghost p = cur.pos() as int;
        let g = cur.get_group_header()?;
        proof { lemma_skip_skip(b, p, 4); }
        match GroupReader::new(g.block_length, g.num_in_group).next() {
            Step::HasElement(group) => Ok(Step::HasElement(FuelFiguresMemberDecoder { cur, group })),
            Step::Exhausted(_) => Ok(Step::Exhausted(PerformanceFiguresHeaderDecoder { cur })),
        }
    }
}

impl<'a> FuelFiguresMemberDecoder<'a> {
    /// Reads the fixed fields of the current element and skips to the end of
    /// its block.
    pub fn next_fuel_figures_member(self) -> (r: Result<
        (FuelFigureFields, UsageDescriptionDecoder<'a>),
        CodecError,
    >)
        requires
            self.wf(),
        ensures
            match r {
                Ok((f, next)) => 6 <= self.group().block_length <= self.rest().len()
                    && fuel_figure_read_from(f, self.rest()) && next.wf() && next.rest()
                    == self.rest().skip(self.group().block_length as int) && next.group()
                    == self.group(),
                Err(e) => if self.group().block_length < 6 {
                    e == CodecError::LengthMismatch
                } else {
                    self.group().block_length > self.rest().len() && e == CodecError::OutOfBounds
                },
            },
    {
        let mut cur = self.cur;
        let bl = self.group.block_length;
        if bl < 6 {
            return Err(CodecError::LengthMismatch);
        }
        if (bl as usize) > cur.remaining() {
            return Err(CodecError::OutOfBounds);
        }
        let ghost b = cur.bytes();
        let ghost p = cur.pos() as int;
        let speed = cur.get_u16()?;
        proof { lemma_skip_skip(b, p, 2); }
        let mpg_bits = cur.get_u32()?;
        skip_block_rest(&mut cur, bl, 6)?;
        proof { lemma_skip_skip(b, p, bl as int); }
        Ok((FuelFigureFields { speed, mpg_bits }, UsageDescriptionDecoder { cur, group: self.group }))
    }
}

impl<'a> UsageDescriptionDecoder<'a> {
    /// Reads the usage description as a view into the buffer; then either
    /// another element follows, or the performance figures do.
    pub fn usage_description(self) -> (r: Result<
        (&'a [u8], Step<FuelFiguresMemberDecoder<'a>, PerformanceFiguresHeaderDecoder<'a>>),
        CodecError,
    >)
        requires
            self.wf(),
        ensures
            match r {
                Ok((d, step)) => parse_var_data(self.rest()) == Some(d@) && match step {
                    Step::HasElement(m) => reader_step(self.group()) == Step::<
                        GroupReader,
                        GroupReader,
                    >::HasElement(m.group()) && m.wf() && m.rest() == self.rest().skip(
                        4 + d@.len() as int,
                    ),
                    Step::Exhausted(next) => reader_step(self.group()) is Exhausted && next.wf()
                        && next.rest() == self.rest().skip(4 + d@.len() as int),
                },
                Err(e) => parse_var_data(self.rest()) is None && e == CodecError::OutOfBounds,
            },
    {
        let mut cur = self.cur;
        let ghost b = cur.bytes();
        let ghost p = cur.pos() as int;
        let d = cur.get_var_data()?;
        proof { lemma_skip_skip(b, p, 4 + d@.len() as int); }
        match self.group.next() {
            Step::HasElement(group) => Ok((d, Step::HasElement(FuelFiguresMemberDecoder { cur, group }))),
            Step::Exhausted(_) => Ok((d, Step::Exhausted(PerformanceFiguresHeaderDecoder { cur }))),
        }
    }
}

impl<'a> PerformanceFiguresHeaderDecoder<'a> {
    /// Reads the performance-figures group header: either the first element
    /// is there, or the group is empty and the manufacturer comes next.
    pub fn performance_figures_individually(self) -> (r: Result<
        Step<PerformanceFiguresMemberDecoder<'a>, ManufacturerDecoder<'a>>,
        CodecError,
    >)
        requires
            self.wf(),
        ensures
            match r {
                Ok(Step::HasElement(m)) => parse_group_header(self.rest()) matches Some(g)
                    && g.num_in_group > 0 && m.wf() && m.rest() == self.rest().skip(4)
                    && m.group() == (GroupReader {
                    block_length: g.block_length,
                    count: g.num_in_group,
                    produced: 1,
                }),
                Ok(Step::Exhausted(next)) => parse_group_header(self.rest()) matches Some(g)
                    && g.num_in_group == 0 && next.wf() && next.rest() == self.rest().skip(4),
                Err(e) => parse_group_header(self.rest()) is None && e == CodecError::OutOfBounds,
            },
    {
        let mut cur = self.cur;
        let ghost b = cur.bytes();
        let ghost p = cur.pos() as int;
        let g = cur.get_group_header()?;
        proof { lemma_skip_skip(b, p, 4); }
        match GroupReader::new(g.block_length, g.num_in_group).next() {
            Step::HasElement(group) => Ok(Step::HasElement(PerformanceFiguresMemberDecoder { cur, group })),
            Step::Exhausted(_) => Ok(Step::Exhausted(ManufacturerDecoder { cur })),
        }
    }
}

impl<'a> PerformanceFiguresMemberDecoder<'a> {
    /// Reads the fixed fields of the current element and skips to the end of
    /// its block.
    pub fn next_performance_figures_member(self) -> (r: Result<
        (PerformanceFigureFields, AccelerationHeaderDecoder<'a>),
        CodecError,
    >)
        requires
            self.wf(),
        ensures
            match r {
                Ok((f, next)) => 1 <= self.group().block_length <= self.rest().len()
                    && f.octane_rating == self.rest()[0] && next.wf() && next.rest()
                    == self.rest().skip(self.group().block_length as int) && next.group()
                    == self.group(),
                Err(e) => if self.group().block_length < 1 {
                    e == CodecError::LengthMismatch
                } else {
                    self.group().block_length > self.rest().len() && e == CodecError::OutOfBounds
                },
            },
    {
        let mut cur = self.cur;
        let bl = self.group.block_length;
        if bl < 1 {
            return Err(CodecError::LengthMismatch);
        }
        if (bl as usize) > cur.remaining() {
            return Err(CodecError::OutOfBounds);
        }
        let ghost b = cur.bytes();
        let ghost p = cur.pos() as int;
        let octane_rating = cur.get_u8()?;
        skip_block_rest(&mut cur, bl, 1)?;
        proof { lemma_skip_skip(b, p, bl as int); }
        Ok((PerformanceFigureFields { octane_rating }, AccelerationHeaderDecoder { cur, group: self.group }))
    }
}

impl<'a> AccelerationHeaderDecoder<'a> {
    /// Reads the whole nested acceleration group; then either another
    /// performance figure follows, or the manufacturer does.
    pub fn acceleration(self) -> (r: Result<
        (Vec<Acceleration>, Step<PerformanceFiguresMemberDecoder<'a>, ManufacturerDecoder<'a>>),
        CodecError,
    >)
        requires
            self.wf(),
        ensures
            match r {
                Ok((v, step)) => parse_group_header(self.rest()) matches Some(g) && {
                    let n = g.num_in_group as int;
                    let bl = g.block_length as int;
                    &&& n == 0 || bl >= 6
                    &&& 4 + n * bl <= self.rest().len()
                    &&& v@.len() == n
                    &&& forall|i: int|
                        0 <= i < n ==> acceleration_read_from(
                            #[trigger] v@[i],
                            self.rest().skip(4 + i * bl),
                        )
                    &&& match step {
                        Step::HasElement(m) => reader_step(self.group()) == Step::<
                            GroupReader,
                            GroupReader,
                        >::HasElement(m.group()) && m.wf() && m.rest() == self.rest().skip(
                            4 + n * bl,
                        ),
                        Step::Exhausted(next) => reader_step(self.group()) is Exhausted
                            && next.wf() && next.rest() == self.rest().skip(4 + n * bl),
                    }
                },
                Err(e) => match parse_group_header(self.rest()) {
                    None => e == CodecError::OutOfBounds,
                    Some(g) => if g.num_in_group > 0 && g.block_length < 6 {
                        e == CodecError::LengthMismatch
                    } else {
                        4 + g.num_in_group * g.block_length > self.rest().len() && e
                            == CodecError::OutOfBounds
                    },
                },
            },
    {
        let mut cur = self.cur;
        let ghost b = cur.bytes();
        let ghost p = cur.pos() as int;
        let ghost s = cur.rest();
        let g = cur.get_group_header()?;
        proof { lemma_skip_skip(b, p, 4); }
        let n = g.num_in_group;
        let bl = g.block_length;
        if n > 0 && bl < 6 {
            return Err(CodecError::LengthMismatch);
        }
        assert((n as u64) * (bl as u64) <= 0xffff * 0xffff) by (nonlinear_arith)
            requires n <= 0xffff, bl <= 0xffff;
        let total: u64 = (n as u64) * (bl as u64);
        if total > cur.remaining() as u64 {
            return Err(CodecError::OutOfBounds);
        }
        let mut v: Vec<Acceleration> = Vec::new();
        let mut i: u16 = 0;
        while i < n
            invariant
                cur.wf(),
                cur.bytes() == b,
                0 <= p,
                s == b.skip(p),
                n == g.num_in_group,
                bl == g.block_length,
                n == 0 || bl >= 6,
                p + 4 + n * bl <= b.len(),
                i <= n,
                cur.pos() == p + 4 + i * bl,
                v@.len() == i,
                forall|k: int| 0 <= k < i ==> acceleration_read_from(#[trigger] v@[k], s.skip(4 + k * bl)),
            decreases n - i,
        {
            proof {
                assert((i + 1) * bl <= n * bl) by (nonlinear_arith)
                    requires i < n;
                assert((i + 1) * bl == i * bl + bl) by (nonlinear_arith);
                lemma_skip_skip(b, p, 4 + i * bl);
                lemma_skip_skip(b, p, 4 + i * bl + 2);
                assert(s.skip(4 + i * bl).skip(2) =~= s.skip(4 + i * bl + 2));
            }
            let mph = cur.get_u16()?;
            let seconds_bits = cur.get_u32()?;
            skip_block_rest(&mut cur, bl, 6)?;
            v.push(Acceleration { mph, seconds_bits });
            i = i + 1;
        }
        proof { lemma_skip_skip(b, p, 4 + n * bl); }
        match self.group.next() {
            Step::HasElement(group) => Ok((v, Step::HasElement(PerformanceFiguresMemberDecoder { cur, group }))),
            Step::Exhausted(_) => Ok((v, Step::Exhausted(ManufacturerDecoder { cur }))),
        }
    }
}

impl<'a> ManufacturerDecoder<'a> {
    /// Reads the manufacturer as a view into the buffer.
    pub fn manufacturer(self) -> (r: Result<(&'a [u8], ModelDecoder<'a>), CodecError>)
        requires
            self.wf(),
        ensures
            match r {
                Ok((d, next)) => parse_var_data(self.rest()) == Some(d@) && next.wf() && next.rest()
                    == self.rest().skip(4 + d@.len() as int),
                Err(e) => parse_var_data(self.rest()) is None && e == CodecError::OutOfBounds,
            },
    {
        let mut cur = self.cur;
        let ghost b = cur.bytes();
        let ghost p = cur.pos() as int;
        let d = cur.get_var_data()?;
        proof { lemma_skip_skip(b, p, 4 + d@.len() as int); }
        Ok((d, ModelDecoder { cur }))
    }
}

impl<'a> ModelDecoder<'a> {
    /// Reads the model as a view into the buffer.
    pub fn model(self) -> (r: Result<(&'a [u8], ActivationCodeDecoder<'a>), CodecError>)
        requires
            self.wf(),
        ensures
            match r {
                Ok((d, next)) => parse_var_data(self.rest()) == Some(d@) && next.wf() && next.rest()
                    == self.rest().skip(4 + d@.len() as int),
                Err(e) => parse_var_data(self.rest()) is None && e == CodecError::OutOfBounds,
            },
    {
        let mut cur = self.cur;
        let ghost b = cur.bytes();
        let ghost p = cur.pos() as int;
        let d = cur.get_var_data()?;
        proof { lemma_skip_skip(b, p, 4 + d@.len() as int); }
        Ok((d, ActivationCodeDecoder { cur }))
    }
}

impl<'a> ActivationCodeDecoder<'a> {
    /// Reads the activation code as a view into the buffer; the message ends
    /// there.
    pub fn activation_code(self) -> (r: Result<(&'a [u8], CarDecoderDone<'a>), CodecError>)
        requires
            self.wf(),
        ensures
            match r {
                Ok((d, next)) => parse_var_data(self.rest()) == Some(d@) && next.wf() && next.rest()
                    == self.rest().skip(4 + d@.len() as int) && next.position() == self.position() + 4
                    + d@.len(),
                Err(e) => parse_var_data(self.rest()) is None && e == CodecError::OutOfBounds,
            },
    {
        let mut cur = self.cur;
        let ghost b = cur.bytes();
        let ghost p = cur.pos() as int;
        let d = cur.get_var_data()?;
        proof { lemma_skip_skip(b, p, 4 + d@.len() as int); }
        Ok((d, CarDecoderDone { cur }))
    }
}

impl<'a> CarDecoderDone<'a> {
    pub closed spec fn buffer_view(&self) -> Seq<u8> {
        self.cur.bytes()
    }

    /// Bytes of the buffer after the end of the message.
    pub fn remaining(&self) -> (r: usize)
        requires
            self.wf(),
        ensures
            r == self.rest().len(),
    {
        self.cur.remaining()
    }

    /// The position where the message ended, and the buffer it was read from.
    pub fn unwrap(self) -> (r: (usize, &'a [u8]))
        ensures
            r.0 == self.position(),
            r.1@ == self.buffer_view(),
    {
        (self.cur.position(), self.cur.buffer())
    }
}

} // verus!
