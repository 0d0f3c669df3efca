//! A car message written and read back gives the same car.
use crate::car::{
    car_fields_read_from, car_fields_wire, lemma_car_fields_round_trip, lemma_car_fields_wire_len, same_fields,
    Acceleration,
};
use crate::car_encoder::{
    acceleration_group_wire, accelerations_wire, fuel_figure_wire,
    lemma_acceleration_round_trip, lemma_accelerations_wire_len,
};
use crate::decode::{car_matches_model, fuel_model, performance_model};
use crate::header::{
    parse_group_header, parse_header, group_header_wire, header_wire, lemma_group_header_round_trip, lemma_header_round_trip,
    GroupHeader,
};
use crate::message::{car_fits, car_wire, fuel_elems_wire, perf_elems_wire, Car, FuelFigure, PerformanceFigure};
use crate::car::FuelFigureFields;
use crate::error::CodecError;
use crate::parse::{parse_accelerations, parse_car, parse_fuel, parse_performance, parse_text, CarModel};
use crate::var_data::{lemma_var_data_round_trip, parse_var_data, var_data_wire, MAX_VAR_DATA};
use crate::wire::{from_le16, from_le32, le16, le32};
use vstd::bytes::*;
use vstd::prelude::*;
use vstd::utf8::valid_utf8;

verus! {

pub open spec fn fuel_piece(f: FuelFigure) -> Seq<u8> {
    fuel_figure_wire(f.fields) + var_data_wire(f.usage_description@)
}

pub open spec fn performance_piece(p: PerformanceFigure) -> Seq<u8> {
    seq![p.fields.octane_rating] + acceleration_group_wire(p.acceleration@)
}

proof fn lemma_fuel_elems_front(v: Seq<FuelFigure>)
    requires
        v.len() > 0,
    ensures
        fuel_elems_wire(v) == fuel_piece(v[0]) + fuel_elems_wire(v.skip(1)),
    decreases v.len(),
{
    if v.len() == 1 {
        assert(v.drop_last() =~= Seq::<FuelFigure>::empty());
        assert(v.skip(1) =~= Seq::<FuelFigure>::empty());
        assert(fuel_elems_wire(v) =~= fuel_piece(v[0]) + fuel_elems_wire(v.skip(1)));
    } else {
        let w = v.drop_last();
        lemma_fuel_elems_front(w);
        assert(w.skip(1) =~= v.skip(1).drop_last());
        assert(v.skip(1).last() == v.last());
        assert(fuel_elems_wire(v) =~= fuel_piece(v[0]) + fuel_elems_wire(v.skip(1)));
    }
}

proof fn lemma_perf_elems_front(v: Seq<PerformanceFigure>)
    requires
        v.len() > 0,
    ensures
        perf_elems_wire(v) == performance_piece(v[0]) + perf_elems_wire(v.skip(1)),
    decreases v.len(),
{
    if v.len() == 1 {
        assert(v.drop_last() =~= Seq::<PerformanceFigure>::empty());
        assert(v.skip(1) =~= Seq::<PerformanceFigure>::empty());
        assert(perf_elems_wire(v) =~= performance_piece(v[0]) + perf_elems_wire(v.skip(1)));
    } else {
        let w = v.drop_last();
        lemma_perf_elems_front(w);
        assert(w.skip(1) =~= v.skip(1).drop_last());
        assert(v.skip(1).last() == v.last());
        assert(perf_elems_wire(v) =~= performance_piece(v[0]) + perf_elems_wire(v.skip(1)));
    }
}

proof fn lemma_parse_fuel_round_trip(v: Seq<FuelFigure>, rest: Seq<u8>)
    requires
        forall|i: int| 0 <= i < v.len() ==> #[trigger] v[i].usage_description@.len() <= MAX_VAR_DATA,
        forall|i: int| 0 <= i < v.len() ==> valid_utf8(#[trigger] v[i].usage_description@),
    ensures
        parse_fuel(fuel_elems_wire(v) + rest, 6, v.len()) == Ok::<_, CodecError>(
            (fuel_model(v), fuel_elems_wire(v).len() as int),
        ),
    decreases v.len(),
{
    if v.len() == 0 {
        assert(fuel_model(v) =~= Seq::empty());
    } else {
        lemma_auto_spec_u16_to_from_le_bytes();
        lemma_auto_spec_u32_to_from_le_bytes();
        lemma_fuel_elems_front(v);
        let f = v[0];
        let t = v.skip(1);
        assert(forall|i: int| 0 <= i < t.len() ==> t[i] == v[i + 1]);
        assert(valid_utf8(v[0].usage_description@));
        lemma_parse_fuel_round_trip(t, rest);
        let s = fuel_elems_wire(v) + rest;
        let d = f.usage_description@;
        lemma_var_data_round_trip(d, fuel_elems_wire(t) + rest);
        assert(s =~= fuel_figure_wire(f.fields) + (var_data_wire(d) + (fuel_elems_wire(t) + rest)));
        assert(s.skip(6) =~= var_data_wire(d) + (fuel_elems_wire(t) + rest));
        assert(s.skip(6 + 4 + d.len() as int) =~= fuel_elems_wire(t) + rest);
        assert(s.subrange(0, 2) =~= le16(f.fields.speed));
        assert(s.skip(2).subrange(0, 4) =~= le32(f.fields.mpg_bits));
        assert(fuel_model(v) =~= seq![(f.fields, d)] + fuel_model(t));
    }
}

proof fn lemma_parse_accelerations_round_trip(a: Seq<Acceleration>, rest: Seq<u8>)
    ensures
        parse_accelerations(accelerations_wire(a) + rest, 6, a.len() as int) == Ok::<_, CodecError>(a),
{
    let s = accelerations_wire(a) + rest;
    lemma_accelerations_wire_len(a);
    assert forall|i: int| 0 <= i < a.len() implies (Acceleration {
        mph: from_le16(s.skip(i * 6)),
        seconds_bits: from_le32(s.skip(i * 6 + 2)),
    }) == #[trigger] a[i] by {
        crate::car_encoder::lemma_accelerations_wire_at(a, i, rest);
        let x = s.skip(6 * i);
        crate::header::lemma_skip_skip(s, 6 * i, 2);
        lemma_acceleration_round_trip(
            a[i],
            Acceleration { mph: from_le16(x), seconds_bits: from_le32(x.skip(2)) },
            s.skip(6 * i + 6),
        );
    }
    assert(Seq::new(
        a.len(),
        |i: int|
            Acceleration {
                mph: from_le16(s.skip(i * 6)),
                seconds_bits: from_le32(s.skip(i * 6 + 2)),
            },
    ) =~= a);
}

#[verifier::rlimit(100)]
proof fn lemma_parse_performance_round_trip(v: Seq<PerformanceFigure>, rest: Seq<u8>)
    requires
        forall|i: int| 0 <= i < v.len() ==> #[trigger] v[i].acceleration@.len() <= 0xffff,
    ensures
        parse_performance(perf_elems_wire(v) + rest, 1, v.len()) == Ok::<_, CodecError>(
            (performance_model(v), perf_elems_wire(v).len() as int),
        ),
    decreases v.len(),
{
    if v.len() == 0 {
        assert(performance_model(v) =~= Seq::empty());
    } else {
        lemma_perf_elems_front(v);
        let p = v[0];
        let t = v.skip(1);
        assert(forall|i: int| 0 <= i < t.len() ==> t[i] == v[i + 1]);
        lemma_parse_performance_round_trip(t, rest);
        let a = p.acceleration@;
        let s = perf_elems_wire(v) + rest;
        let g = GroupHeader { block_length: 6, num_in_group: a.len() as u16 };
        lemma_accelerations_wire_len(a);
        lemma_group_header_round_trip(g, accelerations_wire(a) + (perf_elems_wire(t) + rest));
        lemma_parse_accelerations_round_trip(a, perf_elems_wire(t) + rest);
        assert(s =~= seq![p.fields.octane_rating] + (group_header_wire(g) + (accelerations_wire(a)
            + (perf_elems_wire(t) + rest))));
        assert(s.skip(1) =~= group_header_wire(g) + (accelerations_wire(a) + (perf_elems_wire(t)
            + rest)));
        assert(s.skip(1).skip(4) =~= accelerations_wire(a) + (perf_elems_wire(t) + rest));
        assert(s.skip(1 + 4 + a.len() as int * 6) =~= perf_elems_wire(t) + rest);
        assert(performance_model(v) =~= seq![(p.fields.octane_rating, a)] + performance_model(t));
        assert(a.len() <= 0xffff);
        assert(g.num_in_group as int == a.len());
        assert(parse_group_header(s.skip(1)) == Some(g));
        assert(g.num_in_group as int * g.block_length as int == a.len() as int * 6);
        assert(parse_accelerations(s.skip(1).skip(4), 6, a.len() as int) == Ok::<_, CodecError>(a));
        assert(s[0] == p.fields.octane_rating);
        assert(perf_elems_wire(v).len() == 1 + 4 + a.len() * 6 + perf_elems_wire(t).len());
    }
}

/// The two cars hold the same values.
pub open spec fn same_car(a: Car, b: Car) -> bool {
    &&& a.header == b.header
    &&& same_fields(a.fields, b.fields)
    &&& fuel_model(a.fuel_figures@) == fuel_model(b.fuel_figures@)
    &&& performance_model(a.performance_figures@) == performance_model(b.performance_figures@)
    &&& a.manufacturer@ == b.manufacturer@
    &&& a.model@ == b.model@
    &&& a.activation_code@ == b.activation_code@
}

/// The arrays of `c` are full, its texts are UTF-8 and its header gives the
/// fixed block's length.
pub open spec fn car_is_complete(c: Car) -> bool {
    &&& car_fits(c)
    &&& forall|i: int|
        0 <= i < c.fuel_figures@.len() ==> valid_utf8(#[trigger] c.fuel_figures@[i].usage_description@)
    &&& valid_utf8(c.manufacturer@)
    &&& valid_utf8(c.model@)
    &&& valid_utf8(c.activation_code@)
    &&& c.header.block_length == 49
    &&& c.fields.some_numbers@.len() == 5
    &&& c.fields.vehicle_code@.len() == 6
    &&& c.fields.engine.manufacturer_code@.len() == 3
}

/// A written car, whatever follows it, is read whole, as the values it was
/// written from.
#[verifier::rlimit(100)]
pub proof fn lemma_parse_car_wire(c: Car, rest: Seq<u8>)
    requires
        car_is_complete(c),
    ensures
        parse_car(car_wire(c) + rest) matches Ok((m, k)) && k == car_wire(c).len() && m.header
            == c.header && m.block == car_fields_wire(c.fields) && m.fuel_figures == fuel_model(
            c.fuel_figures@,
        ) && m.performance_figures == performance_model(c.performance_figures@) && m.manufacturer
            == c.manufacturer@ && m.model == c.model@ && m.activation_code == c.activation_code@,
{
    let s = car_wire(c) + rest;
    let fv = c.fuel_figures@;
    let pv = c.performance_figures@;
    let g1 = GroupHeader { block_length: 6, num_in_group: fv.len() as u16 };
    let g2 = GroupHeader { block_length: 1, num_in_group: pv.len() as u16 };
    let fw = car_fields_wire(c.fields);
    let m1 = var_data_wire(c.manufacturer@);
    let m2 = var_data_wire(c.model@);
    let m3 = var_data_wire(c.activation_code@);
    let tail3 = m3 + rest;
    let tail2 = m2 + tail3;
    let tail1 = m1 + tail2;
    let after_p = perf_elems_wire(pv) + tail1;
    let after_g2 = group_header_wire(g2) + after_p;
    let after_f = fuel_elems_wire(fv) + after_g2;
    let after_g1 = group_header_wire(g1) + after_f;
    let after_fields = fw + after_g1;
    lemma_header_round_trip(c.header, after_fields);
    lemma_car_fields_wire_len(c.fields);
    lemma_group_header_round_trip(g1, after_f);
    lemma_group_header_round_trip(g2, after_p);
    lemma_parse_fuel_round_trip(fv, after_g2);
    lemma_parse_performance_round_trip(pv, tail1);
    lemma_var_data_round_trip(c.manufacturer@, tail2);
    lemma_var_data_round_trip(c.model@, tail3);
    lemma_var_data_round_trip(c.activation_code@, rest);
    assert(s =~= header_wire(c.header) + after_fields);
    let s1 = s.skip(8);
    assert(s1 =~= after_fields);
    assert(s1.skip(49) =~= after_g1);
    assert(s1.skip(49).skip(4) =~= after_f);
    let k1 = fuel_elems_wire(fv).len() as int;
    assert(s1.skip(49).skip(4 + k1) =~= after_g2);
    let s3 = s1.skip(49).skip(4 + k1);
    assert(s3.skip(4) =~= after_p);
    let k2 = perf_elems_wire(pv).len() as int;
    assert(s3.skip(4 + k2) =~= tail1);
    assert(tail1.skip(4 + c.manufacturer@.len() as int) =~= tail2);
    assert(tail2.skip(4 + c.model@.len() as int) =~= tail3);
    assert(s1.take(49) =~= fw);
}

/// A car written and read back, whatever follows it, holds the same values:
/// whatever car matches what is read is the same car.
pub proof fn lemma_car_round_trip(c: Car, rest: Seq<u8>, d: Car)
    requires
        car_is_complete(c),
        parse_car(car_wire(c) + rest) matches Ok((m, _)) && car_matches_model(d, m),
    ensures
        same_car(d, c),
{
    lemma_parse_car_wire(c, rest);
    let m = parse_car(car_wire(c) + rest).unwrap().0;
    assert(car_fields_read_from(d.fields, car_fields_wire(c.fields) + Seq::empty()));
    lemma_car_fields_round_trip(c.fields, d.fields, Seq::empty());
}

/// `t` is the first part of `u`.
pub open spec fn is_prefix(t: Seq<u8>, u: Seq<u8>) -> bool {
    t.len() <= u.len() && t == u.take(t.len() as int)
}

proof fn lemma_prefix_skip(t: Seq<u8>, u: Seq<u8>, a: int)
    requires
        is_prefix(t, u),
        0 <= a <= t.len(),
    ensures
        is_prefix(t.skip(a), u.skip(a)),
{
    assert(t.skip(a) =~= u.skip(a).take(t.len() - a));
}

proof fn lemma_prefix_scalars(t: Seq<u8>, u: Seq<u8>, n: int)
    requires
        is_prefix(t, u),
        0 <= n <= t.len(),
    ensures
        t.subrange(0, n) == u.subrange(0, n),
        forall|i: int| 0 <= i < n ==> t[i] == u[i],
{
    assert(t.subrange(0, n) =~= u.subrange(0, n));
}

proof fn lemma_prefix_headers(t: Seq<u8>, u: Seq<u8>)
    requires
        is_prefix(t, u),
    ensures
        parse_header(t) is Some ==> parse_header(u) == parse_header(t),
        parse_group_header(t) is Some ==> parse_group_header(u) == parse_group_header(t),
        parse_var_data(t) is Some ==> parse_var_data(u) == parse_var_data(t),
{
    if t.len() >= 2 {
        lemma_prefix_scalars(t, u, 2);
    }
    if t.len() >= 4 {
        lemma_prefix_scalars(t, u, 4);
        lemma_prefix_skip(t, u, 2);
        lemma_prefix_scalars(t.skip(2), u.skip(2), 2);
    }
    if t.len() >= 8 {
        lemma_prefix_skip(t, u, 4);
        lemma_prefix_skip(t, u, 6);
        lemma_prefix_scalars(t.skip(4), u.skip(4), 2);
        lemma_prefix_scalars(t.skip(6), u.skip(6), 2);
    }
    if parse_var_data(t) is Some {
        let n = from_le32(t);
        assert(t.subrange(4, 4 + n) =~= u.subrange(4, 4 + n));
    }
}

proof fn lemma_prefix_fuel(t: Seq<u8>, u: Seq<u8>, bl: int, n: nat)
    requires
        is_prefix(t, u),
        parse_fuel(t, bl, n) != Err::<(Seq<(FuelFigureFields, Seq<u8>)>, int), _>(
            CodecError::OutOfBounds,
        ),
    ensures
        parse_fuel(u, bl, n) == parse_fuel(t, bl, n),
        parse_fuel(t, bl, n) matches Ok((_, j)) ==> 0 <= j <= t.len(),
    decreases n,
{
    if n > 0 && bl >= 6 && bl <= t.len() {
        lemma_prefix_skip(t, u, bl);
        lemma_prefix_headers(t.skip(bl), u.skip(bl));
        lemma_prefix_scalars(t, u, 2);
        lemma_prefix_skip(t, u, 2);
        lemma_prefix_scalars(t.skip(2), u.skip(2), 4);
        if let Some(d) = parse_var_data(t.skip(bl)) {
            if valid_utf8(d) {
                let k = bl + 4 + d.len();
                lemma_prefix_skip(t, u, k);
                lemma_prefix_fuel(t.skip(k), u.skip(k), bl, (n - 1) as nat);
            }
        }
    }
}

proof fn lemma_prefix_accelerations(t: Seq<u8>, u: Seq<u8>, bl: int, n: int)
    requires
        is_prefix(t, u),
        0 <= bl,
        0 <= n,
        parse_accelerations(t, bl, n) != Err::<Seq<Acceleration>, _>(CodecError::OutOfBounds),
    ensures
        parse_accelerations(u, bl, n) == parse_accelerations(t, bl, n),
{
    if parse_accelerations(t, bl, n) is Ok {
        assert forall|i: int| 0 <= i < n implies #[trigger] from_le16(t.skip(i * bl)) == from_le16(
            u.skip(i * bl),
        ) && from_le32(t.skip(i * bl + 2)) == from_le32(u.skip(i * bl + 2)) by {
            assert((i + 1) * bl <= n * bl) by (nonlinear_arith)
                requires
                    i < n,
                    0 <= bl,
            ;
            assert((i + 1) * bl == i * bl + bl) by (nonlinear_arith);
            assert(0 <= i * bl) by (nonlinear_arith)
                requires
                    0 <= i,
                    0 <= bl,
            ;
            lemma_prefix_skip(t, u, i * bl);
            lemma_prefix_scalars(t.skip(i * bl), u.skip(i * bl), 2);
            lemma_prefix_skip(t, u, i * bl + 2);
            lemma_prefix_scalars(t.skip(i * bl + 2), u.skip(i * bl + 2), 4);
        }
        assert(parse_accelerations(u, bl, n).unwrap() =~= parse_accelerations(t, bl, n).unwrap());
    }
}

proof fn lemma_prefix_performance(t: Seq<u8>, u: Seq<u8>, bl: int, n: nat)
    requires
        is_prefix(t, u),
        parse_performance(t, bl, n) != Err::<(Seq<(u8, Seq<Acceleration>)>, int), _>(
            CodecError::OutOfBounds,
        ),
    ensures
        parse_performance(u, bl, n) == parse_performance(t, bl, n),
        parse_performance(t, bl, n) matches Ok((_, j)) ==> 0 <= j <= t.len(),
    decreases n,
{
    if n > 0 && bl >= 1 && bl <= t.len() {
        let ts = t.skip(bl);
        lemma_prefix_skip(t, u, bl);
        lemma_prefix_headers(ts, u.skip(bl));
        lemma_prefix_scalars(t, u, 1);
        if let Some(g) = parse_group_header(ts) {
            let gn = g.num_in_group as int;
            let gbl = g.block_length as int;
            lemma_prefix_skip(ts, u.skip(bl), 4);
            lemma_prefix_accelerations(ts.skip(4), u.skip(bl).skip(4), gbl, gn);
            if parse_accelerations(ts.skip(4), gbl, gn) is Ok {
                let k = bl + 4 + gn * gbl;
                lemma_prefix_skip(t, u, k);
                lemma_prefix_performance(t.skip(k), u.skip(k), bl, (n - 1) as nat);
            }
        }
    }
}

proof fn lemma_prefix_text(t: Seq<u8>, u: Seq<u8>)
    requires
        is_prefix(t, u),
        parse_text(t) != Err::<Seq<u8>, _>(CodecError::OutOfBounds),
    ensures
        parse_text(u) == parse_text(t),
        parse_text(t) matches Ok(d) ==> 4 + d.len() <= t.len(),
{
    lemma_prefix_headers(t, u);
}

/// Reading a first part of `u` either runs out of bytes or gives what
/// reading `u` gives.
proof fn lemma_prefix_car(t: Seq<u8>, u: Seq<u8>)
    requires
        is_prefix(t, u),
        parse_car(t) != Err::<(CarModel, int), _>(CodecError::OutOfBounds),
    ensures
        parse_car(u) == parse_car(t),
        parse_car(t) matches Ok((_, j)) ==> j <= t.len(),
{
    lemma_prefix_headers(t, u);
    if let Some(h) = parse_header(t) {
        let bl = h.block_length as int;
        lemma_prefix_skip(t, u, 8);
        let (t1, u1) = (t.skip(8), u.skip(8));
        if 49 <= bl <= t1.len() {
            assert(t1.take(49) =~= u1.take(49));
            lemma_prefix_skip(t1, u1, bl);
            let (t2, u2) = (t1.skip(bl), u1.skip(bl));
            lemma_prefix_headers(t2, u2);
            if let Some(g1) = parse_group_header(t2) {
                lemma_prefix_skip(t2, u2, 4);
                lemma_prefix_fuel(t2.skip(4), u2.skip(4), g1.block_length as int, g1.num_in_group as nat);
                if let Ok((_, k1)) = parse_fuel(t2.skip(4), g1.block_length as int, g1.num_in_group as nat) {
                    lemma_prefix_skip(t2, u2, 4 + k1);
                    let (t3, u3) = (t2.skip(4 + k1), u2.skip(4 + k1));
                    lemma_prefix_headers(t3, u3);
                    if let Some(g2) = parse_group_header(t3) {
                        lemma_prefix_skip(t3, u3, 4);
                        lemma_prefix_performance(t3.skip(4), u3.skip(4), g2.block_length as int, g2.num_in_group as nat);
                        if let Ok((_, k2)) = parse_performance(t3.skip(4), g2.block_length as int, g2.num_in_group as nat) {
                            lemma_prefix_skip(t3, u3, 4 + k2);
                            let (t4, u4) = (t3.skip(4 + k2), u3.skip(4 + k2));
                            lemma_prefix_text(t4, u4);
                            if let Ok(a) = parse_text(t4) {
                                lemma_prefix_skip(t4, u4, 4 + a.len() as int);
                                let (t5, u5) = (t4.skip(4 + a.len() as int), u4.skip(4 + a.len() as int));
                                lemma_prefix_text(t5, u5);
                                if let Ok(b) = parse_text(t5) {
                                    lemma_prefix_skip(t5, u5, 4 + b.len() as int);
                                    let (t6, u6) = (t5.skip(4 + b.len() as int), u5.skip(4 + b.len() as int));
                                    lemma_prefix_text(t6, u6);
                                }
                            }
                        }
                    }
                }
            }
        }
    }
}

/// Cars that hold the same values have the same bytes on the wire.
pub proof fn lemma_car_wire_same(a: Car, b: Car)
    requires
        same_car(a, b),
    ensures
        car_wire(a) == car_wire(b),
{
    lemma_fuel_elems_same(a.fuel_figures@, b.fuel_figures@);
    lemma_perf_elems_same(a.performance_figures@, b.performance_figures@);
    assert(fuel_model(a.fuel_figures@).len() == a.fuel_figures@.len());
    assert(fuel_model(b.fuel_figures@).len() == b.fuel_figures@.len());
    assert(performance_model(a.performance_figures@).len() == a.performance_figures@.len());
    assert(performance_model(b.performance_figures@).len() == b.performance_figures@.len());
    assert(crate::car::engine_wire(a.fields.engine) =~= crate::car::engine_wire(b.fields.engine));
    assert(car_fields_wire(a.fields) =~= car_fields_wire(b.fields));
}

proof fn lemma_fuel_elems_same(a: Seq<FuelFigure>, b: Seq<FuelFigure>)
    requires
        fuel_model(a) == fuel_model(b),
    ensures
        fuel_elems_wire(a) == fuel_elems_wire(b),
    decreases a.len(),
{
    assert(fuel_model(a).len() == a.len() && fuel_model(b).len() == b.len());
    if a.len() > 0 {
        assert(fuel_model(a.drop_last()) =~= fuel_model(b.drop_last())) by {
            assert forall|i: int| 0 <= i < a.len() - 1 implies fuel_model(a.drop_last())[i]
                == fuel_model(b.drop_last())[i] by {
                assert(fuel_model(a)[i] == fuel_model(b)[i]);
            }
        }
        lemma_fuel_elems_same(a.drop_last(), b.drop_last());
        assert(fuel_model(a)[a.len() - 1] == fuel_model(b)[a.len() - 1]);
    }
}

proof fn lemma_perf_elems_same(a: Seq<PerformanceFigure>, b: Seq<PerformanceFigure>)
    requires
        performance_model(a) == performance_model(b),
    ensures
        perf_elems_wire(a) == perf_elems_wire(b),
    decreases a.len(),
{
    assert(performance_model(a).len() == a.len() && performance_model(b).len() == b.len());
    if a.len() > 0 {
        assert(performance_model(a.drop_last()) =~= performance_model(b.drop_last())) by {
            assert forall|i: int| 0 <= i < a.len() - 1 implies performance_model(a.drop_last())[i]
                == performance_model(b.drop_last())[i] by {
                assert(performance_model(a)[i] == performance_model(b)[i]);
            }
        }
        lemma_perf_elems_same(a.drop_last(), b.drop_last());
        assert(performance_model(a)[a.len() - 1] == performance_model(b)[a.len() - 1]);
    }
}

/// Two cars that match the same read values hold the same values.
pub proof fn lemma_same_model(a: Car, b: Car, m: crate::parse::CarModel)
    requires
        car_matches_model(a, m),
        car_matches_model(b, m),
    ensures
        same_car(a, b),
{
    assert(a.fields.some_numbers@ =~= b.fields.some_numbers@);
}

/// Every strict prefix of a written car runs out of bytes.
pub proof fn lemma_car_truncated(c: Car, k: int)
    requires
        car_is_complete(c),
        0 <= k < car_wire(c).len(),
    ensures
        parse_car(car_wire(c).take(k)) == Err::<(CarModel, int), _>(CodecError::OutOfBounds),
{
    let w = car_wire(c);
    let t = w.take(k);
    if parse_car(t) != Err::<(CarModel, int), _>(CodecError::OutOfBounds) {
        assert(is_prefix(t, w));
        lemma_prefix_car(t, w);
        assert(w + Seq::<u8>::empty() =~= w);
        lemma_parse_car_wire(c, Seq::empty());
    }
}

} // verus!
