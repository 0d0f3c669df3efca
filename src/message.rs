//! A whole car message as one value, and its encoding through the accessor
//! chain.
use crate::car::{
    car_fields_fit, car_fields_wire, Acceleration, CarFields, FuelFigureFields,
    PerformanceFigureFields, MANUFACTURER_CODE_LENGTH, SOME_NUMBERS_LENGTH, VEHICLE_CODE_LENGTH,
};
use crate::car_encoder::{acceleration_group_wire, fuel_figure_wire, start_encoding_car};
use crate::error::CodecError;
use crate::group::GroupWriter;
use crate::header::{group_header_wire, header_wire, GroupHeader, MessageHeader};
use crate::var_data::{var_data_wire, MAX_VAR_DATA};
use vstd::bytes::*;
use vstd::prelude::*;

verus! {

pub struct FuelFigure {
    pub fields: FuelFigureFields,
    pub usage_description: Vec<u8>,
}

pub struct PerformanceFigure {
    pub fields: PerformanceFigureFields,
    pub acceleration: Vec<Acceleration>,
}

/// A car message: header, fixed fields, both groups and the trailing data.
pub struct Car {
    pub header: MessageHeader,
    pub fields: CarFields,
    pub fuel_figures: Vec<FuelFigure>,
    pub performance_figures: Vec<PerformanceFigure>,
    pub manufacturer: Vec<u8>,
    pub model: Vec<u8>,
    pub activation_code: Vec<u8>,
}

pub open spec fn fuel_elems_wire(v: Seq<FuelFigure>) -> Seq<u8>
    decreases v.len(),
{
    if v.len() == 0 {
        Seq::empty()
    } else {
        fuel_elems_wire(v.drop_last()) + fuel_figure_wire(v.last().fields) + var_data_wire(
            v.last().usage_description@,
        )
    }
}

pub open spec fn perf_elems_wire(v: Seq<PerformanceFigure>) -> Seq<u8>
    decreases v.len(),
{
    if v.len() == 0 {
        Seq::empty()
    } else {
        perf_elems_wire(v.drop_last()) + seq![v.last().fields.octane_rating]
            + acceleration_group_wire(v.last().acceleration@)
    }
}

/// The bytes of `c` on the wire, from the header to the activation code.
pub open spec fn car_wire(c: Car) -> Seq<u8> {
    header_wire(c.header) + car_fields_wire(c.fields) + group_header_wire(
        GroupHeader { block_length: 6, num_in_group: c.fuel_figures@.len() as u16 },
    ) + fuel_elems_wire(c.fuel_figures@) + group_header_wire(
        GroupHeader { block_length: 1, num_in_group: c.performance_figures@.len() as u16 },
    ) + perf_elems_wire(c.performance_figures@) + var_data_wire(c.manufacturer@) + var_data_wire(
        c.model@,
    ) + var_data_wire(c.activation_code@)
}

/// Every array, count and length of `c` fits its place on the wire.
pub open spec fn car_fits(c: Car) -> bool {
    &&& car_fields_fit(c.fields)
    &&& c.fuel_figures@.len() <= 0xffff
    &&& forall|i: int|
        0 <= i < c.fuel_figures@.len() ==> #[trigger] c.fuel_figures@[i].usage_description@.len()
            <= MAX_VAR_DATA
    &&& c.performance_figures@.len() <= 0xffff
    &&& forall|i: int|
        0 <= i < c.performance_figures@.len()
            ==> #[trigger] c.performance_figures@[i].acceleration@.len() <= 0xffff
    &&& c.manufacturer@.len() <= MAX_VAR_DATA
    &&& c.model@.len() <= MAX_VAR_DATA
    &&& c.activation_code@.len() <= MAX_VAR_DATA
}

proof fn lemma_fuel_elems_len_mono(v: Seq<FuelFigure>, i: int, j: int)
    requires
        0 <= i <= j <= v.len(),
    ensures
        fuel_elems_wire(v.take(i)).len() <= fuel_elems_wire(v.take(j)).len(),
    decreases j - i,
{
    if i < j {
        lemma_fuel_elems_len_mono(v, i, j - 1);
        assert(v.take(j).drop_last() =~= v.take(j - 1));
    }
}

proof fn lemma_perf_elems_len_mono(v: Seq<PerformanceFigure>, i: int, j: int)
    requires
        0 <= i <= j <= v.len(),
    ensures
        perf_elems_wire(v.take(i)).len() <= perf_elems_wire(v.take(j)).len(),
    decreases j - i,
{
    if i < j {
        lemma_perf_elems_len_mono(v, i, j - 1);
        assert(v.take(j).drop_last() =~= v.take(j - 1));
    }
}

/// Tells whether every array, count and length of `c` fits its place.
pub fn car_fits_wire(c: &Car) -> (r: bool)
    ensures
        r == car_fits(*c),
{
    if c.fields.some_numbers.len() > SOME_NUMBERS_LENGTH || c.fields.vehicle_code.len()
        > VEHICLE_CODE_LENGTH || c.fields.engine.manufacturer_code.len() > MANUFACTURER_CODE_LENGTH {
        return false;
    }
    if c.fuel_figures.len() > 0xffff || c.performance_figures.len() > 0xffff {
        return false;
    }
    if c.manufacturer.len() > MAX_VAR_DATA || c.model.len() > MAX_VAR_DATA
        || c.activation_code.len() > MAX_VAR_DATA {
        return false;
    }
    let mut i: usize = 0;
    while i < c.fuel_figures.len()
        invariant
            i <= c.fuel_figures@.len(),
            forall|k: int| 0 <= k < i ==> #[trigger] c.fuel_figures@[k].usage_description@.len() <= MAX_VAR_DATA,
        decreases c.fuel_figures@.len() - i,
    {
        if c.fuel_figures[i].usage_description.len() > MAX_VAR_DATA {
            return false;
        }
        i = i + 1;
    }
    let mut j: usize = 0;
    while j < c.performance_figures.len()
        invariant
            j <= c.performance_figures@.len(),
            forall|k: int| 0 <= k < j ==> #[trigger] c.performance_figures@[k].acceleration@.len() <= 0xffff,
        decreases c.performance_figures@.len() - j,
    {
        if c.performance_figures[j].acceleration.len() > 0xffff {
            return false;
        }
        j = j + 1;
    }
    true
}

/// Encodes `c` at the start of `buf`: the length of the message and the
/// buffer back.
pub fn encode_car(c: &Car, buf: Vec<u8>) -> (r: Result<(usize, Vec<u8>), CodecError>)
    ensures
        match r {
            Ok((n, b)) => car_fits(*c) && n == car_wire(*c).len() && b@.take(n as int) == car_wire(
                *c,
            ) && b@.len() == buf@.len() && n <= b@.len(),
            Err(e) => if !car_fits(*c) {
                e == CodecError::LengthMismatch
            } else {
                car_wire(*c).len() > buf@.len() && e == CodecError::OutOfBounds
            },
        },
{
    if !car_fits_wire(c) {
        return Err(CodecError::LengthMismatch);
    }
    let ghost total = car_wire(*c).len() as int;
    let ghost cap = buf@.len() as int;
    let ghost fv = c.fuel_figures@;
    let ghost pv = c.performance_figures@;
    let ghost tail = 4 + perf_elems_wire(pv).len() + var_data_wire(c.manufacturer@).len()
        + var_data_wire(c.model@).len() + var_data_wire(c.activation_code@).len();
    proof {
        crate::header::lemma_header_round_trip(c.header, Seq::empty());
        crate::header::lemma_group_header_round_trip(
            GroupHeader { block_length: 6, num_in_group: fv.len() as u16 },
            Seq::empty(),
        );
        crate::header::lemma_group_header_round_trip(
            GroupHeader { block_length: 1, num_in_group: pv.len() as u16 },
            Seq::empty(),
        );
        crate::car::lemma_car_fields_wire_len(c.fields);
        crate::var_data::lemma_var_data_round_trip(c.manufacturer@, Seq::empty());
        crate::var_data::lemma_var_data_round_trip(c.model@, Seq::empty());
        crate::var_data::lemma_var_data_round_trip(c.activation_code@, Seq::empty());
        assert(fv.take(fv.len() as int) =~= fv);
        assert(pv.take(pv.len() as int) =~= pv);
    }
    let enc = start_encoding_car(buf);
    let enc = enc.header_copy(&c.header)?;
    let enc = enc.car_fields(&c.fields)?;
    let mut enc = enc.fuel_figures_individually(c.fuel_figures.len() as u16)?;
    let ghost a = enc.written();
    assert(a.len() == 61);
    let mut i: usize = 0;
    while i < c.fuel_figures.len()
        invariant
            car_fits(*c),
            fv == c.fuel_figures@,
            fv.take(fv.len() as int) == fv,
            total == car_wire(*c).len(),
            cap == buf@.len(),
            a.len() == 61,
            tail >= 0,
            enc.wf(),
            i <= fv.len(),
            enc.written() == a + fuel_elems_wire(fv.take(i as int)),
            enc.room() + enc.written().len() == cap,
            total == 61 + fuel_elems_wire(fv).len() + tail,
            enc.group() == (GroupWriter { declared: fv.len() as u16, written: i as u16 }),
        decreases fv.len() - i,
    {
        let ff = &c.fuel_figures[i];
        proof {
            lemma_fuel_elems_len_mono(fv, i + 1, fv.len() as int);
            assert(fv.take(i + 1).drop_last() =~= fv.take(i as int));
            assert(fv.take(i + 1).last() == fv[i as int]);
            crate::var_data::lemma_var_data_round_trip(fv[i as int].usage_description@, Seq::empty());
            lemma_auto_spec_u16_to_from_le_bytes();
            lemma_auto_spec_u32_to_from_le_bytes();
            assert(fuel_figure_wire(fv[i as int].fields).len() == 6);
            assert(fuel_elems_wire(fv.take(i + 1)).len() == fuel_elems_wire(fv.take(i as int)).len()
                + 10 + fv[i as int].usage_description@.len());
            assert(total >= enc.written().len() + 10 + fv[i as int].usage_description@.len());
            assert(fv[i as int].usage_description@.len() <= MAX_VAR_DATA);
            assert((i as u16) < (fv.len() as u16));
        }
        let usage = enc.next_fuel_figures_member(&ff.fields)?;
        enc = usage.usage_description(ff.usage_description.as_slice())?;
        proof {
            assert(enc.written() =~= a + fuel_elems_wire(fv.take(i + 1)));
        }
        i = i + 1;
    }
    let enc = enc.done_with_fuel_figures()?;
    let mut enc = enc.performance_figures_individually(c.performance_figures.len() as u16)?;
    let ghost b = enc.written();
    assert(b.len() == 65 + fuel_elems_wire(fv).len());
    let ghost tail2 = var_data_wire(c.manufacturer@).len() + var_data_wire(c.model@).len()
        + var_data_wire(c.activation_code@).len();
    let mut j: usize = 0;
    while j < c.performance_figures.len()
        invariant
            car_fits(*c),
            pv == c.performance_figures@,
            pv.take(pv.len() as int) == pv,
            total == car_wire(*c).len(),
            cap == buf@.len(),
            tail2 >= 0,
            enc.wf(),
            j <= pv.len(),
            enc.written() == b + perf_elems_wire(pv.take(j as int)),
            enc.room() + enc.written().len() == cap,
            total == b.len() + perf_elems_wire(pv).len() + tail2,
            enc.group() == (GroupWriter { declared: pv.len() as u16, written: j as u16 }),
        decreases pv.len() - j,
    {
        let pf = &c.performance_figures[j];
        proof {
            lemma_perf_elems_len_mono(pv, j + 1, pv.len() as int);
            assert(pv.take(j + 1).drop_last() =~= pv.take(j as int));
            assert(pv.take(j + 1).last() == pv[j as int]);
            crate::car_encoder::lemma_accelerations_wire_len(pv[j as int].acceleration@);
            assert(perf_elems_wire(pv.take(j + 1)).len() == perf_elems_wire(pv.take(j as int)).len()
                + 5 + 6 * pv[j as int].acceleration@.len());
            assert(total >= enc.written().len() + 5 + 6 * pv[j as int].acceleration@.len());
            assert(pv[j as int].acceleration@.len() <= 0xffff);
            assert((j as u16) < (pv.len() as u16));
        }
        let accel = enc.next_performance_figures_member(&pf.fields)?;
        enc = accel.acceleration_from_slice(pf.acceleration.as_slice())?;
        proof {
            assert(enc.written() =~= b + perf_elems_wire(pv.take(j + 1)));
        }
        j = j + 1;
    }
    let enc = enc.done_with_performance_figures()?;
    let enc = enc.manufacturer(c.manufacturer.as_slice())?;
    let enc = enc.model(c.model.as_slice())?;
    let enc = enc.activation_code(c.activation_code.as_slice())?;
    assert(enc.written() =~= car_wire(*c));
    let (n, out) = enc.unwrap();
    Ok((n, out))
}

} // verus!
