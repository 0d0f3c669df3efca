//! Reading a whole car message into one value through the accessor chain.
use crate::car::{car_fields_read_from, engine_read_from, CarFields};
use crate::car_decoder::{
    start_decoding_car, FuelFiguresMemberDecoder, ManufacturerDecoder,
    PerformanceFiguresHeaderDecoder, PerformanceFiguresMemberDecoder,
};
use crate::error::CodecError;
use crate::group::Step;
use crate::header::lemma_skip_skip;
use crate::var_data::is_utf8;
use crate::message::{Car, FuelFigure, PerformanceFigure};
use crate::header::parse_group_header;
use crate::parse::{parse_accelerations, parse_car, parse_fuel, parse_performance, CarModel};
use crate::car::{Acceleration, FuelFigureFields};
use crate::wire::{from_le16, from_le32};
use vstd::prelude::*;
use vstd::slice::slice_to_vec;
use vstd::utf8::valid_utf8;

verus! {

pub open spec fn fuel_model(v: Seq<FuelFigure>) -> Seq<(FuelFigureFields, Seq<u8>)> {
    Seq::new(v.len(), |i: int| (v[i].fields, v[i].usage_description@))
}

pub open spec fn performance_model(v: Seq<PerformanceFigure>) -> Seq<(u8, Seq<Acceleration>)> {
    Seq::new(v.len(), |i: int| (v[i].fields.octane_rating, v[i].acceleration@))
}

/// `c` holds the values of `m`; its fixed fields are those `m.block` encodes.
pub open spec fn car_matches_model(c: Car, m: CarModel) -> bool {
    &&& c.header == m.header
    &&& car_fields_read_from(c.fields, m.block)
    &&& fuel_model(c.fuel_figures@) == m.fuel_figures
    &&& performance_model(c.performance_figures@) == m.performance_figures
    &&& c.manufacturer@ == m.manufacturer
    &&& c.model@ == m.model
    &&& c.activation_code@ == m.activation_code
}

pub open spec fn fuel_step_wf<'a>(
    step: Step<FuelFiguresMemberDecoder<'a>, PerformanceFiguresHeaderDecoder<'a>>,
) -> bool {
    match step {
        Step::HasElement(m) => m.wf() && 1 <= m.group().produced <= m.group().count,
        Step::Exhausted(d) => d.wf(),
    }
}

pub open spec fn fuel_step_rest<'a>(
    step: Step<FuelFiguresMemberDecoder<'a>, PerformanceFiguresHeaderDecoder<'a>>,
) -> Seq<u8> {
    match step {
        Step::HasElement(m) => m.rest(),
        Step::Exhausted(d) => d.rest(),
    }
}

/// What the rest of the group reads as.
pub open spec fn fuel_step_parse<'a>(
    step: Step<FuelFiguresMemberDecoder<'a>, PerformanceFiguresHeaderDecoder<'a>>,
) -> Result<(Seq<(FuelFigureFields, Seq<u8>)>, int), CodecError> {
    match step {
        Step::HasElement(m) => parse_fuel(
            m.rest(),
            m.group().block_length as int,
            (m.group().count - m.group().produced + 1) as nat,
        ),
        Step::Exhausted(_) => Ok((Seq::empty(), 0)),
    }
}

pub open spec fn fuel_step_count<'a>(
    step: Step<FuelFiguresMemberDecoder<'a>, PerformanceFiguresHeaderDecoder<'a>>,
) -> int {
    match step {
        Step::HasElement(m) => m.group().count - m.group().produced + 1,
        Step::Exhausted(_) => 0,
    }
}

fn read_fuel<'a>(step: Step<FuelFiguresMemberDecoder<'a>, PerformanceFiguresHeaderDecoder<'a>>) -> (r: Result<
    (Vec<FuelFigure>, PerformanceFiguresHeaderDecoder<'a>),
    CodecError,
>)
    requires
        fuel_step_wf(step),
    ensures
        match r {
            Ok((v, d)) => fuel_step_parse(step) matches Ok((fv, k)) && fv == fuel_model(v@) && 0
                <= k <= fuel_step_rest(step).len() && d.wf() && d.rest() == fuel_step_rest(
                step,
            ).skip(k),
            Err(e) => fuel_step_parse(step) == Err::<(Seq<(FuelFigureFields, Seq<u8>)>, int), _>(e),
        },
    decreases fuel_step_count(step),
{
    match step {
        Step::HasElement(m) => {
            let ghost s = m.rest();
            let ghost bl = m.group().block_length as int;
            let (ff, u) = m.next_fuel_figures_member()?;
            let (d, next) = u.usage_description()?;
            if !is_utf8(d) {
                return Err(CodecError::MalformedUtf8);
            }
            let ghost k = bl + 4 + d@.len();
            proof {
                lemma_skip_skip(s, bl, 4 + d@.len() as int);
            }
            let (mut v, after) = read_fuel(next)?;
            let ghost v0 = v@;
            proof {
                let (fv, j) = fuel_step_parse(next).unwrap();
                lemma_skip_skip(s, k, j);
                assert(fuel_step_parse(next) == parse_fuel(s.skip(k), bl, (m.group().count - m.group().produced) as nat));
            }
            v.insert(0, FuelFigure { fields: ff, usage_description: slice_to_vec(d) });
            proof {
                assert(ff == (FuelFigureFields { speed: from_le16(s), mpg_bits: from_le32(s.skip(2)) }));
                assert(fuel_model(v@) =~= seq![(ff, d@)] + fuel_model(v0));
            }
            Ok((v, after))
        },
        Step::Exhausted(d) => {
            assert(d.rest().skip(0) =~= d.rest());
            let v: Vec<FuelFigure> = Vec::new();
            assert(fuel_model(v@) =~= Seq::empty());
            Ok((v, d))
        },
    }
}

pub open spec fn performance_step_wf<'a>(
    step: Step<PerformanceFiguresMemberDecoder<'a>, ManufacturerDecoder<'a>>,
) -> bool {
    match step {
        Step::HasElement(m) => m.wf() && 1 <= m.group().produced <= m.group().count,
        Step::Exhausted(d) => d.wf(),
    }
}

pub open spec fn performance_step_rest<'a>(
    step: Step<PerformanceFiguresMemberDecoder<'a>, ManufacturerDecoder<'a>>,
) -> Seq<u8> {
    match step {
        Step::HasElement(m) => m.rest(),
        Step::Exhausted(d) => d.rest(),
    }
}

/// What the rest of the group reads as.
pub open spec fn performance_step_parse<'a>(
    step: Step<PerformanceFiguresMemberDecoder<'a>, ManufacturerDecoder<'a>>,
) -> Result<(Seq<(u8, Seq<Acceleration>)>, int), CodecError> {
    match step {
        Step::HasElement(m) => parse_performance(
            m.rest(),
            m.group().block_length as int,
            (m.group().count - m.group().produced + 1) as nat,
        ),
        Step::Exhausted(_) => Ok((Seq::empty(), 0)),
    }
}

pub open spec fn performance_step_count<'a>(
    step: Step<PerformanceFiguresMemberDecoder<'a>, ManufacturerDecoder<'a>>,
) -> int {
    match step {
        Step::HasElement(m) => m.group().count - m.group().produced + 1,
        Step::Exhausted(_) => 0,
    }
}

fn read_performance<'a>(step: Step<PerformanceFiguresMemberDecoder<'a>, ManufacturerDecoder<'a>>) -> (r: Result<
    (Vec<PerformanceFigure>, ManufacturerDecoder<'a>),
    CodecError,
>)
    requires
        performance_step_wf(step),
    ensures
        match r {
            Ok((v, d)) => performance_step_parse(step) matches Ok((pv, k)) && pv
                == performance_model(v@) && 0 <= k <= performance_step_rest(step).len() && d.wf()
                && d.rest() == performance_step_rest(step).skip(k),
            Err(e) => performance_step_parse(step) == Err::<(Seq<(u8, Seq<Acceleration>)>, int), _>(e),
        },
    decreases performance_step_count(step),
{
    match step {
        Step::HasElement(m) => {
            let ghost s = m.rest();
            let ghost bl = m.group().block_length as int;
            let (pf, a) = m.next_performance_figures_member()?;
            let ghost t = a.rest();
            let (accel, next) = a.acceleration()?;
            let ghost g = parse_group_header(t).unwrap();
            let ghost gn = g.num_in_group as int;
            let ghost gbl = g.block_length as int;
            let ghost k = bl + 4 + gn * gbl;
            proof {
                assert(t == s.skip(bl));
                lemma_skip_skip(s, bl, 4 + gn * gbl);
                assert forall|i: int| 0 <= i < gn implies #[trigger] accel@[i] == (Acceleration {
                    mph: from_le16(t.skip(4).skip(i * gbl)),
                    seconds_bits: from_le32(t.skip(4).skip(i * gbl + 2)),
                }) by {
                    assert((i + 1) * gbl <= gn * gbl) by (nonlinear_arith)
                        requires i < gn, 0 <= gbl;
                    assert((i + 1) * gbl == i * gbl + gbl) by (nonlinear_arith);
                    assert(0 <= i * gbl) by (nonlinear_arith) requires 0 <= i, 0 <= gbl;
                    lemma_skip_skip(t, 4, i * gbl);
                    lemma_skip_skip(t, 4, i * gbl + 2);
                    lemma_skip_skip(t, 4 + i * gbl, 2);
                }
                assert(parse_accelerations(t.skip(4), gbl, gn) == Ok::<Seq<Acceleration>, CodecError>(accel@)) by {
                    assert(accel@ =~= Seq::new(
                        gn as nat,
                        |i: int|
                            Acceleration {
                                mph: from_le16(t.skip(4).skip(i * gbl)),
                                seconds_bits: from_le32(t.skip(4).skip(i * gbl + 2)),
                            },
                    ));
                }
            }
            let (mut v, after) = read_performance(next)?;
            let ghost v0 = v@;
            proof {
                let (pv, j) = performance_step_parse(next).unwrap();
                lemma_skip_skip(s, k, j);
                assert(performance_step_parse(next) == parse_performance(s.skip(k), bl, (m.group().count - m.group().produced) as nat));
            }
            v.insert(0, PerformanceFigure { fields: pf, acceleration: accel });
            proof {
                assert(performance_model(v@) =~= seq![(s[0], accel@)] + performance_model(v0));
            }
            Ok((v, after))
        },
        Step::Exhausted(d) => {
            assert(d.rest().skip(0) =~= d.rest());
            let v: Vec<PerformanceFigure> = Vec::new();
            assert(performance_model(v@) =~= Seq::empty());
            Ok((v, d))
        },
    }
}

/// Fixed fields read from `s` are also read from its first 49 bytes.
proof fn lemma_fields_read_from_block(f: CarFields, s: Seq<u8>)
    requires
        s.len() >= 49,
        car_fields_read_from(f, s),
    ensures
        car_fields_read_from(f, s.take(49)),
{
    let t = s.take(49);
    assert(t.subrange(0, 8) =~= s.subrange(0, 8));
    assert(t.skip(8).subrange(0, 2) =~= s.skip(8).subrange(0, 2));
    assert forall|i: int| 0 <= i < 5 implies f.some_numbers@[i] == from_le32_at(t, 12 + 4 * i) by {
        assert(t.skip(12 + 4 * i).subrange(0, 4) =~= s.skip(12 + 4 * i).subrange(0, 4));
    }
    assert(t.subrange(32, 38) =~= s.subrange(32, 38));
    assert(t.skip(39).subrange(0, 2) =~= s.skip(39).subrange(0, 2));
    assert(t.skip(39).subrange(3, 6) =~= s.skip(39).subrange(3, 6));
    assert(engine_read_from(f.engine, t.skip(39)));
}

spec fn from_le32_at(s: Seq<u8>, i: int) -> u32 {
    crate::wire::from_le32(s.skip(i))
}

/// Checks that text read from the message is UTF-8.
fn check_text(d: &[u8]) -> (r: Result<(), CodecError>)
    ensures
        r is Ok <==> valid_utf8(d@),
        r is Err ==> r == Err::<(), _>(CodecError::MalformedUtf8),
{
    if is_utf8(d) {
        Ok(())
    } else {
        Err(CodecError::MalformedUtf8)
    }
}

/// Reads a whole car message from the start of `buf`: the car and the
/// length of the message. It succeeds exactly where the bytes hold one, and
/// otherwise gives the error that reading meets first.
#[verifier::rlimit(100)]
pub fn decode_car(buf: &[u8]) -> (r: Result<(Car, usize), CodecError>)
    ensures
        match r {
            Ok((c, n)) => parse_car(buf@) matches Ok((m, k)) && k == n && car_matches_model(c, m),
            Err(e) => parse_car(buf@) == Err::<(CarModel, int), _>(e),
        },
{
    let ghost s = buf@;
    let dec = start_decoding_car(buf);
    let (header, dec) = dec.header()?;
    let ghost bl = header.block_length as int;
    let ghost s1 = s.skip(8);
    let (fields, dec) = dec.car_fields()?;
    proof {
        lemma_fields_read_from_block(fields, s1);
    }
    let ghost s2 = s1.skip(bl);
    let (fuel_figures, dec) = read_fuel(dec.fuel_figures_individually()?)?;
    let ghost (fv, k1) = parse_fuel(s2.skip(4), parse_group_header(s2).unwrap().block_length as int, parse_group_header(s2).unwrap().num_in_group as nat).unwrap();
    proof {
        lemma_skip_skip(s2, 4, k1);
    }
    let ghost s3 = s2.skip(4 + k1);
    let (performance_figures, dec) = read_performance(dec.performance_figures_individually()?)?;
    let ghost (pv, k2) = parse_performance(s3.skip(4), parse_group_header(s3).unwrap().block_length as int, parse_group_header(s3).unwrap().num_in_group as nat).unwrap();
    proof {
        lemma_skip_skip(s3, 4, k2);
    }
    let ghost s4 = s3.skip(4 + k2);
    let (manufacturer, dec) = dec.manufacturer()?;
    check_text(manufacturer)?;
    let ghost s5 = s4.skip(4 + manufacturer@.len() as int);
    let (model, dec) = dec.model()?;
    check_text(model)?;
    let ghost s6 = s5.skip(4 + model@.len() as int);
    let (activation_code, done) = dec.activation_code()?;
    check_text(activation_code)?;
    let n = buf.len() - done.remaining();
    proof {
        assert(s.skip(0) =~= s);
        lemma_skip_skip(s, 8, bl);
        lemma_skip_skip(s, 8 + bl, 4 + k1);
        lemma_skip_skip(s, 8 + bl + 4 + k1, 4 + k2);
        lemma_skip_skip(s, 8 + bl + 4 + k1 + 4 + k2, 4 + manufacturer@.len() as int);
        lemma_skip_skip(s, 8 + bl + 4 + k1 + 4 + k2 + 4 + manufacturer@.len() as int, 4 + model@.len() as int);
    }
    let car = Car {
        header,
        fields,
        fuel_figures,
        performance_figures,
        manufacturer: slice_to_vec(manufacturer),
        model: slice_to_vec(model),
        activation_code: slice_to_vec(activation_code),
    };
    Ok((car, n))
}

} // verus!
