//! The car message's layout: its top-level fixed block and the fixed blocks
//! of its group elements, with their byte layout as spec functions.
use crate::error::CodecError;
use crate::header::lemma_skip_skip;
use crate::reader::ReadCursor;
use crate::wire::{from_le16, from_le32, from_le64, le16, le32, le64};
use crate::writer::{padded, WriteCursor};
use vstd::bytes::*;
use vstd::prelude::*;
use vstd::slice::slice_to_vec;

verus! {

/// Bytes of the car's top-level fixed block.
pub const CAR_BLOCK_LENGTH: u16 = 49;

pub const CAR_TEMPLATE_ID: u16 = 1;

pub const CAR_SCHEMA_ID: u16 = 1;

pub const CAR_SCHEMA_VERSION: u16 = 0;

/// Bytes of one fuel-figures element: speed and mpg.
pub const FUEL_FIGURES_BLOCK_LENGTH: u16 = 6;

/// Bytes of one performance-figures element: the octane rating.
pub const PERFORMANCE_FIGURES_BLOCK_LENGTH: u16 = 1;

/// Bytes of one acceleration element: mph and seconds.
pub const ACCELERATION_BLOCK_LENGTH: u16 = 6;

/// Capacity of the `some_numbers` array.
pub const SOME_NUMBERS_LENGTH: usize = 5;

/// Capacity of the `vehicle_code` character array.
pub const VEHICLE_CODE_LENGTH: usize = 6;

/// Capacity of the engine's `manufacturer_code` character array.
pub const MANUFACTURER_CODE_LENGTH: usize = 3;

/// `BooleanType::T` on the wire.
pub const BOOLEAN_TRUE: u8 = 1;

/// `Model::A` on the wire.
pub const MODEL_A: u8 = 65;

/// `BoostType::NITROUS` on the wire.
pub const BOOST_NITROUS: u8 = 78;

pub struct Engine {
    pub capacity: u16,
    pub num_cylinders: u8,
    pub manufacturer_code: Vec<u8>,
    pub efficiency: u8,
    pub booster_enabled: u8,
    pub boost_type: u8,
    pub horse_power: u8,
}

/// The car's top-level fixed fields. Floating-point values travel as their
/// IEEE-754 bit patterns.
pub struct CarFields {
    pub serial_number: u64,
    pub model_year: u16,
    pub available: u8,
    pub code: u8,
    pub some_numbers: Vec<u32>,
    pub vehicle_code: Vec<u8>,
    pub extras: u8,
    pub engine: Engine,
}

/// The fixed fields of one fuel-figures element.
#[derive(Debug, Clone, Copy, PartialEq, Eq, Structural)]
pub struct FuelFigureFields {
    pub speed: u16,
    /// Miles per gallon, as the bits of an `f32`.
    pub mpg_bits: u32,
}

/// The fixed fields of one performance-figures element.
#[derive(Debug, Clone, Copy, PartialEq, Eq, Structural)]
pub struct PerformanceFigureFields {
    pub octane_rating: u8,
}

/// One element of the acceleration group nested in performance figures.
#[derive(Debug, Clone, Copy, PartialEq, Eq, Structural)]
pub struct Acceleration {
    pub mph: u16,
    /// Seconds, as the bits of an `f32`.
    pub seconds_bits: u32,
}

/// Little-endian `u32` values one after the other.
pub open spec fn u32s_wire(v: Seq<u32>) -> Seq<u8>
    decreases v.len(),
{
    if v.len() == 0 {
        Seq::empty()
    } else {
        u32s_wire(v.drop_last()) + le32(v.last())
    }
}

/// `v` followed by zeros up to `n` values.
pub open spec fn padded_u32s(v: Seq<u32>, n: nat) -> Seq<u32> {
    Seq::new(n, |i: int| if i < v.len() { v[i] } else { 0u32 })
}

pub open spec fn engine_wire(e: Engine) -> Seq<u8> {
    le16(e.capacity) + seq![e.num_cylinders] + padded(e.manufacturer_code@, 3) + seq![
        e.efficiency,
        e.booster_enabled,
        e.boost_type,
        e.horse_power,
    ]
}

pub open spec fn car_fields_wire(f: CarFields) -> Seq<u8> {
    le64(f.serial_number) + le16(f.model_year) + seq![f.available, f.code] + u32s_wire(
        padded_u32s(f.some_numbers@, 5),
    ) + padded(f.vehicle_code@, 6) + seq![f.extras] + engine_wire(f.engine)
}

pub open spec fn engine_read_from(e: Engine, s: Seq<u8>) -> bool {
    &&& e.capacity == from_le16(s)
    &&& e.num_cylinders == s[2]
    &&& e.manufacturer_code@ == s.subrange(3, 6)
    &&& e.efficiency == s[6]
    &&& e.booster_enabled == s[7]
    &&& e.boost_type == s[8]
    &&& e.horse_power == s[9]
}

/// `f` holds the fields that the 49 bytes at the start of `s` encode.
pub open spec fn car_fields_read_from(f: CarFields, s: Seq<u8>) -> bool {
    &&& f.serial_number == from_le64(s)
    &&& f.model_year == from_le16(s.skip(8))
    &&& f.available == s[10]
    &&& f.code == s[11]
    &&& f.some_numbers@.len() == 5
    &&& forall|i: int| 0 <= i < 5 ==> f.some_numbers@[i] == from_le32(s.skip(12 + 4 * i))
    &&& f.vehicle_code@ == s.subrange(32, 38)
    &&& f.extras == s[38]
    &&& engine_read_from(f.engine, s.skip(39))
}

/// The arrays hold at most what their fields can.
pub open spec fn car_fields_fit(f: CarFields) -> bool {
    &&& f.some_numbers@.len() <= 5
    &&& f.vehicle_code@.len() <= 6
    &&& f.engine.manufacturer_code@.len() <= 3
}

pub proof fn lemma_u32s_wire_len(v: Seq<u32>)
    ensures
        u32s_wire(v).len() == 4 * v.len(),
    decreases v.len(),
{
    lemma_auto_spec_u32_to_from_le_bytes();
    if v.len() > 0 {
        lemma_u32s_wire_len(v.drop_last());
    }
}

/// The top-level fixed block is always 49 bytes long.
pub proof fn lemma_car_fields_wire_len(f: CarFields)
    ensures
        car_fields_wire(f).len() == 49,
        engine_wire(f.engine).len() == 10,
{
    lemma_auto_spec_u16_to_from_le_bytes();
    lemma_auto_spec_u64_to_from_le_bytes();
    lemma_u32s_wire_len(padded_u32s(f.some_numbers@, 5));
}

/// The two records hold the same values.
pub open spec fn same_fields(a: CarFields, b: CarFields) -> bool {
    &&& a.serial_number == b.serial_number
    &&& a.model_year == b.model_year
    &&& a.available == b.available
    &&& a.code == b.code
    &&& a.some_numbers@ == b.some_numbers@
    &&& a.vehicle_code@ == b.vehicle_code@
    &&& a.extras == b.extras
    &&& a.engine.capacity == b.engine.capacity
    &&& a.engine.num_cylinders == b.engine.num_cylinders
    &&& a.engine.manufacturer_code@ == b.engine.manufacturer_code@
    &&& a.engine.efficiency == b.engine.efficiency
    &&& a.engine.booster_enabled == b.engine.booster_enabled
    &&& a.engine.boost_type == b.engine.boost_type
    &&& a.engine.horse_power == b.engine.horse_power
}

proof fn lemma_u32s_wire_at(v: Seq<u32>, i: int, rest: Seq<u8>)
    requires
        0 <= i < v.len(),
    ensures
        from_le32((u32s_wire(v) + rest).skip(4 * i)) == v[i],
    decreases v.len(),
{
    lemma_auto_spec_u32_to_from_le_bytes();
    let w = v.drop_last();
    lemma_u32s_wire_len(w);
    assert(u32s_wire(v) + rest =~= u32s_wire(w) + (le32(v.last()) + rest));
    if i < v.len() - 1 {
        lemma_u32s_wire_at(w, i, le32(v.last()) + rest);
    } else {
        let t = (u32s_wire(v) + rest).skip(4 * i);
        assert(t =~= le32(v.last()) + rest);
        assert(t.subrange(0, 4) =~= le32(v.last()));
    }
}

/// Fixed fields whose arrays are full read back as the same values,
/// whatever follows them.
pub proof fn lemma_car_fields_round_trip(f: CarFields, g: CarFields, rest: Seq<u8>)
    requires
        f.some_numbers@.len() == 5,
        f.vehicle_code@.len() == 6,
        f.engine.manufacturer_code@.len() == 3,
        car_fields_read_from(g, car_fields_wire(f) + rest),
    ensures
        same_fields(g, f),
{
    lemma_auto_spec_u16_to_from_le_bytes();
    lemma_auto_spec_u32_to_from_le_bytes();
    lemma_auto_spec_u64_to_from_le_bytes();
    lemma_car_fields_wire_len(f);
    let s = car_fields_wire(f) + rest;
    let nums = u32s_wire(padded_u32s(f.some_numbers@, 5));
    lemma_u32s_wire_len(padded_u32s(f.some_numbers@, 5));
    assert(padded_u32s(f.some_numbers@, 5) =~= f.some_numbers@);
    assert(padded(f.vehicle_code@, 6) =~= f.vehicle_code@);
    assert(padded(f.engine.manufacturer_code@, 3) =~= f.engine.manufacturer_code@);
    let e = engine_wire(f.engine);
    assert(s.subrange(0, 8) =~= le64(f.serial_number));
    assert(s.skip(8).subrange(0, 2) =~= le16(f.model_year));
    assert(s.skip(12) =~= nums + (padded(f.vehicle_code@, 6) + seq![f.extras] + e + rest));
    assert forall|i: int| 0 <= i < 5 implies g.some_numbers@[i] == f.some_numbers@[i] by {
        lemma_u32s_wire_at(f.some_numbers@, i, padded(f.vehicle_code@, 6) + seq![f.extras] + e + rest);
        assert(s.skip(12 + 4 * i) =~= (nums + (padded(f.vehicle_code@, 6) + seq![f.extras] + e + rest)).skip(4 * i));
    }
    assert(g.some_numbers@ =~= f.some_numbers@);
    assert(s.subrange(32, 38) =~= f.vehicle_code@);
    let t = s.skip(39);
    assert(t =~= e + rest);
    assert(t.subrange(0, 2) =~= le16(f.engine.capacity));
    assert(t.subrange(3, 6) =~= f.engine.manufacturer_code@);
}

/// Fixed fields whose arrays are full are read back from their own bytes.
pub proof fn lemma_car_fields_read_own_wire(f: CarFields, rest: Seq<u8>)
    requires
        f.some_numbers@.len() == 5,
        f.vehicle_code@.len() == 6,
        f.engine.manufacturer_code@.len() == 3,
    ensures
        car_fields_read_from(f, car_fields_wire(f) + rest),
{
    lemma_auto_spec_u16_to_from_le_bytes();
    lemma_auto_spec_u32_to_from_le_bytes();
    lemma_auto_spec_u64_to_from_le_bytes();
    lemma_car_fields_wire_len(f);
    let s = car_fields_wire(f) + rest;
    let nums = u32s_wire(padded_u32s(f.some_numbers@, 5));
    lemma_u32s_wire_len(padded_u32s(f.some_numbers@, 5));
    assert(padded_u32s(f.some_numbers@, 5) =~= f.some_numbers@);
    assert(padded(f.vehicle_code@, 6) =~= f.vehicle_code@);
    assert(padded(f.engine.manufacturer_code@, 3) =~= f.engine.manufacturer_code@);
    let e = engine_wire(f.engine);
    assert(s.subrange(0, 8) =~= le64(f.serial_number));
    assert(s.skip(8).subrange(0, 2) =~= le16(f.model_year));
    assert(s.skip(12) =~= nums + (padded(f.vehicle_code@, 6) + seq![f.extras] + e + rest));
    assert forall|i: int| 0 <= i < 5 implies f.some_numbers@[i] == from_le32(
        s.skip(12 + 4 * i),
    ) by {
        lemma_u32s_wire_at(f.some_numbers@, i, padded(f.vehicle_code@, 6) + seq![f.extras] + e + rest);
        assert(s.skip(12 + 4 * i) =~= (nums + (padded(f.vehicle_code@, 6) + seq![f.extras] + e
            + rest)).skip(4 * i));
    }
    assert(s.subrange(32, 38) =~= f.vehicle_code@);
    let t = s.skip(39);
    assert(t =~= e + rest);
    assert(t.subrange(0, 2) =~= le16(f.engine.capacity));
    assert(t.subrange(3, 6) =~= f.engine.manufacturer_code@);
}

impl WriteCursor {
    /// Writes `v` as a `u32` array field of `n` values, padded with zeros.
    pub fn put_u32_array(&mut self, v: &[u32], n: usize) -> (r: Result<(), CodecError>)
        requires
            old(self).wf(),
            v@.len() <= n,
            4 * n <= old(self).room(),
        ensures
            final(self).wf(),
            final(self).bytes().len() == old(self).bytes().len(),
            r is Ok,
            final(self).written() == old(self).written() + u32s_wire(padded_u32s(v@, n as nat)),
            final(self).pos() == old(self).pos() + 4 * n,
    {
        let ghost w0 = self.written();
        let mut i: usize = 0;
        while i < n
            invariant
                self.wf(),
                self.bytes().len() == old(self).bytes().len(),
                v@.len() <= n,
                i <= n,
                4 * n <= old(self).room(),
                self.pos() == old(self).pos() + 4 * i,
                self.written() == w0 + u32s_wire(padded_u32s(v@, n as nat).take(i as int)),
            decreases n - i,
        {
            let x = if i < v.len() {
                v[i]
            } else {
                0u32
            };
            self.put_u32(x)?;
            proof {
                let p = padded_u32s(v@, n as nat);
                assert(p.take(i + 1).drop_last() =~= p.take(i as int));
            }
            i = i + 1;
        }
        assert(padded_u32s(v@, n as nat).take(n as int) =~= padded_u32s(v@, n as nat));
        Ok(())
    }

    /// Writes the car's top-level fixed fields.
    pub fn put_car_fields(&mut self, f: &CarFields) -> (r: Result<(), CodecError>)
        requires
            old(self).wf(),
        ensures
            final(self).wf(),
            final(self).bytes().len() == old(self).bytes().len(),
            match r {
                Ok(_) => car_fields_fit(*f) && 49 <= old(self).room() && final(self).written()
                    == old(self).written() + car_fields_wire(*f) && final(self).pos()
                    == old(self).pos() + 49,
                Err(e) => if !car_fields_fit(*f) {
                    e == CodecError::LengthMismatch
                } else {
                    old(self).room() < 49 && e == CodecError::OutOfBounds
                },
            },
    {
        if f.some_numbers.len() > SOME_NUMBERS_LENGTH || f.vehicle_code.len() > VEHICLE_CODE_LENGTH
            || f.engine.manufacturer_code.len() > MANUFACTURER_CODE_LENGTH {
            return Err(CodecError::LengthMismatch);
        }
        if self.room_left() < 49 {
            return Err(CodecError::OutOfBounds);
        }
        let ghost w0 = self.written();
        self.put_u64(f.serial_number)?;
        self.put_u16(f.model_year)?;
        self.put_u8(f.available)?;
        self.put_u8(f.code)?;
        self.put_u32_array(f.some_numbers.as_slice(), SOME_NUMBERS_LENGTH)?;
        self.put_padded(f.vehicle_code.as_slice(), VEHICLE_CODE_LENGTH)?;
        self.put_u8(f.extras)?;
        let ghost w1 = self.written();
        self.put_u16(f.engine.capacity)?;
        self.put_u8(f.engine.num_cylinders)?;
        self.put_padded(f.engine.manufacturer_code.as_slice(), MANUFACTURER_CODE_LENGTH)?;
        self.put_u8(f.engine.efficiency)?;
        self.put_u8(f.engine.booster_enabled)?;
        self.put_u8(f.engine.boost_type)?;
        self.put_u8(f.engine.horse_power)?;
        assert(self.written() =~= w1 + engine_wire(f.engine));
        assert(self.written() =~= w0 + car_fields_wire(*f));
        Ok(())
    }
}

impl<'a> ReadCursor<'a> {
    /// Reads the car's top-level fixed fields: 49 bytes.
    pub fn get_car_fields(&mut self) -> (r: Result<CarFields, CodecError>)
        requires
            old(self).wf(),
        ensures
            final(self).wf(),
            final(self).bytes() == old(self).bytes(),
            match r {
                Ok(f) => 49 <= old(self).rest().len() && car_fields_read_from(f, old(self).rest())
                    && final(self).pos() == old(self).pos() + 49,
                Err(e) => old(self).rest().len() < 49 && e == CodecError::OutOfBounds,
            },
    {
        if self.remaining() < 49 {
            return Err(CodecError::OutOfBounds);
        }
        let ghost p = self.pos() as int;
        let ghost s = self.rest();
        let ghost b = self.bytes();
        let serial_number = self.get_u64()?;
        proof { lemma_skip_skip(b, p, 8); }
        let model_year = self.get_u16()?;
        let available = self.get_u8()?;
        let code = self.get_u8()?;
        proof { lemma_skip_skip(b, p, 10); lemma_skip_skip(b, p, 11); }
        let mut some_numbers: Vec<u32> = Vec::new();
        let mut i: usize = 0;
        while i < 5
            invariant
                self.wf(),
                self.bytes() == b,
                0 <= p,
                p + 49 <= b.len(),
                s == b.skip(p),
                i <= 5,
                self.pos() == p + 12 + 4 * i,
                some_numbers@.len() == i,
                forall|k: int| 0 <= k < i ==> some_numbers@[k] == from_le32(s.skip(12 + 4 * k)),
            decreases 5 - i,
        {
            proof { lemma_skip_skip(b, p, 12 + 4 * i); }
            let x = self.get_u32()?;
            some_numbers.push(x);
            i = i + 1;
        }
        proof { lemma_skip_skip(b, p, 32); }
        let vc = self.get_bytes(6)?;
        assert(vc@ =~= s.subrange(32, 38));
        let vehicle_code = slice_to_vec(vc);
        let extras = self.get_u8()?;
        proof { lemma_skip_skip(b, p, 38); lemma_skip_skip(b, p, 39); }
        let capacity = self.get_u16()?;
        proof { lemma_skip_skip(b, p, 41); lemma_skip_skip(b, p, 42); }
        let num_cylinders = self.get_u8()?;
        let mc = self.get_bytes(3)?;
        assert(mc@ =~= s.skip(39).subrange(3, 6));
        let manufacturer_code = slice_to_vec(mc);
        proof { lemma_skip_skip(b, p, 45); }
        let efficiency = self.get_u8()?;
        proof { lemma_skip_skip(b, p, 46); }
        let booster_enabled = self.get_u8()?;
        proof { lemma_skip_skip(b, p, 47); }
        let boost_type = self.get_u8()?;
        proof { lemma_skip_skip(b, p, 48); }
        let horse_power = self.get_u8()?;
        let engine = Engine {
            capacity,
            num_cylinders,
            manufacturer_code,
            efficiency,
            booster_enabled,
            boost_type,
            horse_power,
        };
        Ok(
            CarFields {
                serial_number,
                model_year,
                available,
                code,
                some_numbers,
                vehicle_code,
                extras,
                engine,
            },
        )
    }
}

} // verus!
