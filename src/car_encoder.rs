//! Writing a car message through a chain of consuming accessors: each one
//! offers only the write that comes next in the message, and hands back the
//! accessor for what follows.
use crate::car::{
    car_fields_fit, car_fields_wire, Acceleration, CarFields, FuelFigureFields,
    PerformanceFigureFields,
};
use crate::error::CodecError;
use crate::group::GroupWriter;
use crate::car_decoder::{acceleration_read_from, fuel_figure_read_from};
use crate::header::{
    group_header_wire, header_wire, lemma_group_header_round_trip, parse_group_header,
    parse_header, GroupHeader, MessageHeader,
};
use crate::var_data::{var_data_wire, MAX_VAR_DATA};
use crate::wire::{le16, le32};
use crate::writer::WriteCursor;
use vstd::bytes::*;
use vstd::prelude::*;

verus! {

pub open spec fn fuel_figure_wire(f: FuelFigureFields) -> Seq<u8> {
    le16(f.speed) + le32(f.mpg_bits)
}

pub open spec fn acceleration_wire(a: Acceleration) -> Seq<u8> {
    le16(a.mph) + le32(a.seconds_bits)
}

/// Acceleration elements one after the other.
pub open spec fn accelerations_wire(v: Seq<Acceleration>) -> Seq<u8>
    decreases v.len(),
{
    if v.len() == 0 {
        Seq::empty()
    } else {
        accelerations_wire(v.drop_last()) + acceleration_wire(v.last())
    }
}

/// The acceleration group: its header, then its elements.
pub open spec fn acceleration_group_wire(v: Seq<Acceleration>) -> Seq<u8> {
    group_header_wire(GroupHeader { block_length: 6, num_in_group: v.len() as u16 })
        + accelerations_wire(v)
}

pub proof fn lemma_accelerations_wire_len(v: Seq<Acceleration>)
    ensures
        accelerations_wire(v).len() == 6 * v.len(),
        acceleration_group_wire(v).len() == 4 + 6 * v.len(),
    decreases v.len(),
{
    lemma_auto_spec_u16_to_from_le_bytes();
    lemma_auto_spec_u32_to_from_le_bytes();
    if v.len() > 0 {
        lemma_accelerations_wire_len(v.drop_last());
    }
}

/// A fuel-figures element's fields read back as the same values.
pub proof fn lemma_fuel_figure_round_trip(f: FuelFigureFields, g: FuelFigureFields, rest: Seq<u8>)
    requires
        fuel_figure_read_from(g, fuel_figure_wire(f) + rest),
    ensures
        g == f,
{
    lemma_auto_spec_u16_to_from_le_bytes();
    lemma_auto_spec_u32_to_from_le_bytes();
    let s = fuel_figure_wire(f) + rest;
    assert(s.subrange(0, 2) =~= le16(f.speed));
    assert(s.skip(2).subrange(0, 4) =~= le32(f.mpg_bits));
}

/// An acceleration element read back is the same element.
pub proof fn lemma_acceleration_round_trip(a: Acceleration, b: Acceleration, rest: Seq<u8>)
    requires
        acceleration_read_from(b, acceleration_wire(a) + rest),
    ensures
        b == a,
{
    lemma_auto_spec_u16_to_from_le_bytes();
    lemma_auto_spec_u32_to_from_le_bytes();
    let s = acceleration_wire(a) + rest;
    assert(s.subrange(0, 2) =~= le16(a.mph));
    assert(s.skip(2).subrange(0, 4) =~= le32(a.seconds_bits));
}

pub proof fn lemma_accelerations_wire_at(v: Seq<Acceleration>, i: int, rest: Seq<u8>)
    requires
        0 <= i < v.len(),
    ensures
        (accelerations_wire(v) + rest).skip(6 * i) =~= acceleration_wire(v[i]) + (
        accelerations_wire(v) + rest).skip(6 * i + 6),
    decreases v.len(),
{
    let w = v.drop_last();
    lemma_accelerations_wire_len(w);
    lemma_accelerations_wire_len(v);
    lemma_accelerations_wire_len(seq![v.last()]);
    assert(accelerations_wire(v) + rest =~= accelerations_wire(w) + (acceleration_wire(v.last())
        + rest));
    if i < v.len() - 1 {
        lemma_accelerations_wire_at(w, i, acceleration_wire(v.last()) + rest);
    }
}

/// A written acceleration group reads back with its count and, at each
/// element's place, the same element.
pub proof fn lemma_acceleration_group_round_trip(
    v: Seq<Acceleration>,
    rest: Seq<u8>,
    i: int,
    b: Acceleration,
)
    requires
        v.len() <= 0xffff,
        0 <= i < v.len(),
        acceleration_read_from(b, (acceleration_group_wire(v) + rest).skip(4 + 6 * i)),
    ensures
        parse_group_header(acceleration_group_wire(v) + rest) == Some(
            GroupHeader { block_length: 6, num_in_group: v.len() as u16 },
        ),
        b == v[i],
{
    let g = GroupHeader { block_length: 6, num_in_group: v.len() as u16 };
    let s = acceleration_group_wire(v) + rest;
    lemma_group_header_round_trip(g, accelerations_wire(v) + rest);
    assert(s =~= group_header_wire(g) + (accelerations_wire(v) + rest));
    assert(s.skip(4) =~= accelerations_wire(v) + rest);
    lemma_accelerations_wire_len(v);
    crate::header::lemma_skip_skip(s, 4, 6 * i);
    lemma_accelerations_wire_at(v, i, rest);
    lemma_acceleration_round_trip(v[i], b, (accelerations_wire(v) + rest).skip(6 * i + 6));
}

/// Fewer than eight bytes hold no header, and fewer than four no group header.
pub proof fn lemma_headers_truncated(s: Seq<u8>)
    ensures
        s.len() < 8 ==> parse_header(s) is None,
        s.len() < 4 ==> parse_group_header(s) is None,
{
}

/// Starts writing a car message at the start of `buf`, whose length bounds
/// the message.
pub fn start_encoding_car(buf: Vec<u8>) -> (r: CarEncoder)
    ensures
        r.wf(),
        r.written() == Seq::<u8>::empty(),
        r.room() == buf@.len(),
{
    let cur = WriteCursor::new(buf);
    assert(cur.written() =~= Seq::<u8>::empty());
    CarEncoder { cur }
}

/// Next: the message header.
pub struct CarEncoder {
    cur: WriteCursor,
}

/// Next: the top-level fixed fields.
pub struct CarFieldsEncoder {
    cur: WriteCursor,
}

/// Next: the fuel-figures group header.
pub struct FuelFiguresHeaderEncoder {
    cur: WriteCursor,
}

/// Next: another fuel-figures element, or the end of the group.
pub struct FuelFiguresEncoder {
    cur: WriteCursor,
    group: GroupWriter,
}

/// Next: the usage description of the element just begun.
pub struct UsageDescriptionEncoder {
    cur: WriteCursor,
    group: GroupWriter,
}

/// Next: the performance-figures group header.
pub struct PerformanceFiguresHeaderEncoder {
    cur: WriteCursor,
}

/// Next: another performance-figures element, or the end of the group.
pub struct PerformanceFiguresEncoder {
    cur: WriteCursor,
    group: GroupWriter,
}

/// Next: the acceleration group of the element just begun.
pub struct AccelerationEncoder {
    cur: WriteCursor,
    group: GroupWriter,
}

/// Next: the manufacturer.
pub struct ManufacturerEncoder {
    cur: WriteCursor,
}

/// Next: the model.
pub struct ModelEncoder {
    cur: WriteCursor,
}

/// Next: the activation code.
pub struct ActivationCodeEncoder {
    cur: WriteCursor,
}

/// The whole message has been written.
pub struct CarEncoderDone {
    cur: WriteCursor,
}

impl CarEncoder {
    /// What has been written so far.
    pub closed spec fn written(&self) -> Seq<u8> {
        self.cur.written()
    }

    /// Room left before the end of the buffer.
    pub closed spec fn room(&self) -> int {
        self.cur.room()
    }

    pub closed spec fn wf(&self) -> bool {
        self.cur.wf()
    }
}

impl CarFieldsEncoder {
    /// What has been written so far.
    pub closed spec fn written(&self) -> Seq<u8> {
        self.cur.written()
    }

    /// Room left before the end of the buffer.
    pub closed spec fn room(&self) -> int {
        self.cur.room()
    }

    pub closed spec fn wf(&self) -> bool {
        self.cur.wf()
    }
}

impl FuelFiguresHeaderEncoder {
    /// What has been written so far.
    pub closed spec fn written(&self) -> Seq<u8> {
        self.cur.written()
    }

    /// Room left before the end of the buffer.
    pub closed spec fn room(&self) -> int {
        self.cur.room()
    }

    pub closed spec fn wf(&self) -> bool {
        self.cur.wf()
    }
}

impl FuelFiguresEncoder {
    /// What has been written so far.
    pub closed spec fn written(&self) -> Seq<u8> {
        self.cur.written()
    }

    /// Room left before the end of the buffer.
    pub closed spec fn room(&self) -> int {
        self.cur.room()
    }

    pub closed spec fn wf(&self) -> bool {
        self.cur.wf()
    }

    /// How many elements of the enclosing group were declared and begun.
    pub closed spec fn group(&self) -> GroupWriter {
        self.group
    }
}

impl UsageDescriptionEncoder {
    /// What has been written so far.
    pub closed spec fn written(&self) -> Seq<u8> {
        self.cur.written()
    }

    /// Room left before the end of the buffer.
    pub closed spec fn room(&self) -> int {
        self.cur.room()
    }

    pub closed spec fn wf(&self) -> bool {
        self.cur.wf()
    }

    /// How many elements of the enclosing group were declared and begun.
    pub closed spec fn group(&self) -> GroupWriter {
        self.group
    }
}

impl PerformanceFiguresHeaderEncoder {
    /// What has been written so far.
    pub closed spec fn written(&self) -> Seq<u8> {
        self.cur.written()
    }

    /// Room left before the end of the buffer.
    pub closed spec fn room(&self) -> int {
        self.cur.room()
    }

    pub closed spec fn wf(&self) -> bool {
        self.cur.wf()
    }
}

impl PerformanceFiguresEncoder {
    /// What has been written so far.
    pub closed spec fn written(&self) -> Seq<u8> {
        self.cur.written()
    }

    /// Room left before the end of the buffer.
    pub closed spec fn room(&self) -> int {
        self.cur.room()
    }

    pub closed spec fn wf(&self) -> bool {
        self.cur.wf()
    }

    /// How many elements of the enclosing group were declared and begun.
    pub closed spec fn group(&self) -> GroupWriter {
        self.group
    }
}

impl AccelerationEncoder {
    /// What has been written so far.
    pub closed spec fn written(&self) -> Seq<u8> {
        self.cur.written()
    }

    /// Room left before the end of the buffer.
    pub closed spec fn room(&self) -> int {
        self.cur.room()
    }

    pub closed spec fn wf(&self) -> bool {
        self.cur.wf()
    }

    /// How many elements of the enclosing group were declared and begun.
    pub closed spec fn group(&self) -> GroupWriter {
        self.group
    }
}

impl ManufacturerEncoder {
    /// What has been written so far.
    pub closed spec fn written(&self) -> Seq<u8> {
        self.cur.written()
    }

    /// Room left before the end of the buffer.
    pub closed spec fn room(&self) -> int {
        self.cur.room()
    }

    pub closed spec fn wf(&self) -> bool {
        self.cur.wf()
    }
}

impl ModelEncoder {
    /// What has been written so far.
    pub closed spec fn written(&self) -> Seq<u8> {
        self.cur.written()
    }

    /// Room left before the end of the buffer.
    pub closed spec fn room(&self) -> int {
        self.cur.room()
    }

    pub closed spec fn wf(&self) -> bool {
        self.cur.wf()
    }
}

impl ActivationCodeEncoder {
    /// What has been written so far.
    pub closed spec fn written(&self) -> Seq<u8> {
        self.cur.written()
    }

    /// Room left before the end of the buffer.
    pub closed spec fn room(&self) -> int {
        self.cur.room()
    }

    pub closed spec fn wf(&self) -> bool {
        self.cur.wf()
    }
}

impl CarEncoderDone {
    /// What has been written so far.
    pub closed spec fn written(&self) -> Seq<u8> {
        self.cur.written()
    }

    /// Room left before the end of the buffer.
    pub closed spec fn room(&self) -> int {
        self.cur.room()
    }

    pub closed spec fn wf(&self) -> bool {
        self.cur.wf()
    }
}

impl CarEncoder {
    /// Writes the message header.
    pub fn header_copy(self, h: &MessageHeader) -> (r: Result<CarFieldsEncoder, CodecError>)
        requires
            self.wf(),
        ensures
            match r {
                Ok(next) => next.wf() && next.written() == self.written() + header_wire(*h)
                    && next.room() == self.room() - 8,
                Err(e) => self.room() < 8 && e == CodecError::OutOfBounds,
            },
    {
        let mut cur = self.cur;
        cur.put_header(h)?;
        Ok(CarFieldsEncoder { cur })
    }
}

impl CarFieldsEncoder {
    /// Writes the top-level fixed fields.
    pub fn car_fields(self, f: &CarFields) -> (r: Result<FuelFiguresHeaderEncoder, CodecError>)
        requires
            self.wf(),
        ensures
            match r {
                Ok(next) => car_fields_fit(*f) && next.wf() && next.written() == self.written()
                    + car_fields_wire(*f) && next.room() == self.room() - 49,
                Err(e) => if !car_fields_fit(*f) {
                    e == CodecError::LengthMismatch
                } else {
                    self.room() < 49 && e == CodecError::OutOfBounds
                },
            },
    {
        let mut cur = self.cur;
        cur.put_car_fields(f)?;
        Ok(FuelFiguresHeaderEncoder { cur })
    }
}

impl FuelFiguresHeaderEncoder {
    /// Writes the fuel-figures group header for `count` elements.
    pub fn fuel_figures_individually(self, count: u16) -> (r: Result<FuelFiguresEncoder, CodecError>)
        requires
            self.wf(),
        ensures
            match r {
                Ok(next) => next.wf() && next.written() == self.written() + group_header_wire(
                    GroupHeader { block_length: 6, num_in_group: count },
                ) && next.room() == self.room() - 4 && next.group() == (GroupWriter {
                    declared: count,
                    written: 0,
                }),
                Err(e) => self.room() < 4 && e == CodecError::OutOfBounds,
            },
    {
        let mut cur = self.cur;
        cur.put_group_header(&GroupHeader { block_length: 6, num_in_group: count })?;
        Ok(FuelFiguresEncoder { cur, group: GroupWriter::new(count) })
    }
}

impl FuelFiguresEncoder {
    /// Begins the next element with its fixed fields; fails once as many
    /// elements were begun as declared.
    pub fn next_fuel_figures_member(self, f: &FuelFigureFields) -> (r: Result<
        UsageDescriptionEncoder,
        CodecError,
    >)
        requires
            self.wf(),
        ensures
            match r {
                Ok(next) => self.group().written < self.group().declared && next.wf()
                    && next.written() == self.written() + fuel_figure_wire(*f) && next.room()
                    == self.room() - 6 && next.group() == (GroupWriter {
                    written: (self.group().written + 1) as u16,
                    ..self.group()
                }),
                Err(e) => if self.group().written >= self.group().declared {
                    e == CodecError::LengthMismatch
                } else {
                    self.room() < 6 && e == CodecError::OutOfBounds
                },
            },
    {
        let mut cur = self.cur;
        let mut group = self.group;
        group.begin_element()?;
        if cur.room_left() < 6 {
            return Err(CodecError::OutOfBounds);
        }
        let ghost w0 = cur.written();
        cur.put_u16(f.speed)?;
        cur.put_u32(f.mpg_bits)?;
        assert(cur.written() =~= w0 + fuel_figure_wire(*f));
        Ok(UsageDescriptionEncoder { cur, group })
    }

    /// Ends the group; fails unless as many elements were written as declared.
    pub fn done_with_fuel_figures(self) -> (r: Result<PerformanceFiguresHeaderEncoder, CodecError>)
        requires
            self.wf(),
        ensures
            match r {
                Ok(next) => self.group().written == self.group().declared && next.wf()
                    && next.written() == self.written() && next.room() == self.room(),
                Err(e) => self.group().written != self.group().declared && e
                    == CodecError::LengthMismatch,
            },
    {
        self.group.finish()?;
        Ok(PerformanceFiguresHeaderEncoder { cur: self.cur })
    }
}

impl UsageDescriptionEncoder {
    /// Writes the usage description of the current element.
    pub fn usage_description(self, d: &[u8]) -> (r: Result<FuelFiguresEncoder, CodecError>)
        requires
            self.wf(),
        ensures
            match r {
                Ok(next) => d@.len() <= MAX_VAR_DATA && next.wf() && next.written()
                    == self.written() + var_data_wire(d@) && next.room() == self.room() - 4
                    - d@.len() && next.group() == self.group(),
                Err(e) => if d@.len() > MAX_VAR_DATA {
                    e == CodecError::LengthMismatch
                } else {
                    self.room() < 4 + d@.len() && e == CodecError::OutOfBounds
                },
            },
    {
        let mut cur = self.cur;
        cur.put_var_data(d)?;
        Ok(FuelFiguresEncoder { cur, group: self.group })
    }
}

impl PerformanceFiguresHeaderEncoder {
    /// Writes the performance-figures group header for `count` elements.
    pub fn performance_figures_individually(self, count: u16) -> (r: Result<
        PerformanceFiguresEncoder,
        CodecError,
    >)
        requires
            self.wf(),
        ensures
            match r {
                Ok(next) => next.wf() && next.written() == self.written() + group_header_wire(
                    GroupHeader { block_length: 1, num_in_group: count },
                ) && next.room() == self.room() - 4 && next.group() == (GroupWriter {
                    declared: count,
                    written: 0,
                }),
                Err(e) => self.room() < 4 && e == CodecError::OutOfBounds,
            },
    {
        let mut cur = self.cur;
        cur.put_group_header(&GroupHeader { block_length: 1, num_in_group: count })?;
        Ok(PerformanceFiguresEncoder { cur, group: GroupWriter::new(count) })
    }
}

impl PerformanceFiguresEncoder {
    /// Begins the next element with its fixed fields; fails once as many
    /// elements were begun as declared.
    pub fn next_performance_figures_member(self, f: &PerformanceFigureFields) -> (r: Result<
        AccelerationEncoder,
        CodecError,
    >)
        requires
            self.wf(),
        ensures
            match r {
                Ok(next) => self.group().written < self.group().declared && next.wf()
                    && next.written() == self.written().push(f.octane_rating) && next.room()
                    == self.room() - 1 && next.group() == (GroupWriter {
                    written: (self.group().written + 1) as u16,
                    ..self.group()
                }),
                Err(e) => if self.group().written >= self.group().declared {
                    e == CodecError::LengthMismatch
                } else {
                    self.room() < 1 && e == CodecError::OutOfBounds
                },
            },
    {
        let mut cur = self.cur;
        let mut group = self.group;
        group.begin_element()?;
        cur.put_u8(f.octane_rating)?;
        Ok(AccelerationEncoder { cur, group })
    }

    /// Ends the group; fails unless as many elements were written as declared.
    pub fn done_with_performance_figures(self) -> (r: Result<ManufacturerEncoder, CodecError>)
        requires
            self.wf(),
        ensures
            match r {
                Ok(next) => self.group().written == self.group().declared && next.wf()
                    && next.written() == self.written() && next.room() == self.room(),
                Err(e) => self.group().written != self.group().declared && e
                    == CodecError::LengthMismatch,
            },
    {
        self.group.finish()?;
        Ok(ManufacturerEncoder { cur: self.cur })
    }
}

impl AccelerationEncoder {
    /// Writes the whole nested acceleration group of the current element.
    pub fn acceleration_from_slice(self, a: &[Acceleration]) -> (r: Result<
        PerformanceFiguresEncoder,
        CodecError,
    >)
        requires
            self.wf(),
        ensures
            match r {
                Ok(next) => a@.len() <= 0xffff && next.wf() && next.written() == self.written()
                    + acceleration_group_wire(a@) && next.room() == self.room() - 4 - 6
                    * a@.len() && next.group() == self.group(),
                Err(e) => if a@.len() > 0xffff {
                    e == CodecError::LengthMismatch
                } else {
                    self.room() < 4 + 6 * a@.len() && e == CodecError::OutOfBounds
                },
            },
    {
        let mut cur = self.cur;
        if a.len() > 0xffff {
            return Err(CodecError::LengthMismatch);
        }
        if cur.room_left() < 4 || (cur.room_left() - 4) / 6 < a.len() {
            return Err(CodecError::OutOfBounds);
        }
        let ghost w0 = cur.written();
        cur.put_group_header(&GroupHeader { block_length: 6, num_in_group: a.len() as u16 })?;
        let ghost w1 = cur.written();
        let mut i: usize = 0;
        while i < a.len()
            invariant
                cur.wf(),
                i <= a@.len(),
                cur.room() >= 6 * (a@.len() - i),
                cur.room() == self.room() - 4 - 6 * i,
                cur.written() == w1 + accelerations_wire(a@.take(i as int)),
            decreases a@.len() - i,
        {
            let x = a[i];
            cur.put_u16(x.mph)?;
            cur.put_u32(x.seconds_bits)?;
            proof {
                assert(a@.take(i + 1).drop_last() =~= a@.take(i as int));
                assert(cur.written() =~= w1 + accelerations_wire(a@.take(i + 1)));
            }
            i = i + 1;
        }
        assert(a@.take(a@.len() as int) =~= a@);
        assert(cur.written() =~= w0 + acceleration_group_wire(a@));
        Ok(PerformanceFiguresEncoder { cur, group: self.group })
    }
}

impl ManufacturerEncoder {
    /// Writes the manufacturer.
    pub fn manufacturer(self, d: &[u8]) -> (r: Result<ModelEncoder, CodecError>)
        requires
            self.wf(),
        ensures
            match r {
                Ok(next) => d@.len() <= MAX_VAR_DATA && next.wf() && next.written()
                    == self.written() + var_data_wire(d@) && next.room() == self.room() - 4
                    - d@.len(),
                Err(e) => if d@.len() > MAX_VAR_DATA {
                    e == CodecError::LengthMismatch
                } else {
                    self.room() < 4 + d@.len() && e == CodecError::OutOfBounds
                },
            },
    {
        let mut cur = self.cur;
        cur.put_var_data(d)?;
        Ok(ModelEncoder { cur })
    }
}

impl ModelEncoder {
    /// Writes the model.
    pub fn model(self, d: &[u8]) -> (r: Result<ActivationCodeEncoder, CodecError>)
        requires
            self.wf(),
        ensures
            match r {
                Ok(next) => d@.len() <= MAX_VAR_DATA && next.wf() && next.written()
                    == self.written() + var_data_wire(d@) && next.room() == self.room() - 4
                    - d@.len(),
                Err(e) => if d@.len() > MAX_VAR_DATA {
                    e == CodecError::LengthMismatch
                } else {
                    self.room() < 4 + d@.len() && e == CodecError::OutOfBounds
                },
            },
    {
        let mut cur = self.cur;
        cur.put_var_data(d)?;
        Ok(ActivationCodeEncoder { cur })
    }
}

impl ActivationCodeEncoder {
    /// Writes the activation code; the message ends there.
    pub fn activation_code(self, d: &[u8]) -> (r: Result<CarEncoderDone, CodecError>)
        requires
            self.wf(),
        ensures
            match r {
                Ok(next) => d@.len() <= MAX_VAR_DATA && next.wf() && next.written()
                    == self.written() + var_data_wire(d@) && next.room() == self.room() - 4
                    - d@.len(),
                Err(e) => if d@.len() > MAX_VAR_DATA {
                    e == CodecError::LengthMismatch
                } else {
                    self.room() < 4 + d@.len() && e == CodecError::OutOfBounds
                },
            },
    {
        let mut cur = self.cur;
        cur.put_var_data(d)?;
        Ok(CarEncoderDone { cur })
    }
}

impl CarEncoderDone {
    /// The position where the message ended, and the buffer it was written
    /// into; the message is the buffer's first `position` bytes.
    pub fn unwrap(self) -> (r: (usize, Vec<u8>))
        requires
            self.wf(),
        ensures
            r.0 == self.written().len(),
            r.1@.take(r.0 as int) == self.written(),
            r.1@.len() == r.0 + self.room(),
            r.0 <= r.1@.len(),
    {
        self.cur.finish()
    }
}

} // verus!
