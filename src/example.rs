//! The reference car: its values, its encoding, and the check of a buffer
//! against both.
use crate::car::{
    car_fields_wire, lemma_car_fields_read_own_wire, lemma_car_fields_wire_len, same_fields,
    Acceleration, CarFields, Engine, FuelFigureFields, PerformanceFigureFields, BOOLEAN_TRUE,
    BOOST_NITROUS, CAR_BLOCK_LENGTH, CAR_SCHEMA_ID, CAR_SCHEMA_VERSION, CAR_TEMPLATE_ID, MODEL_A,
};
use crate::car_encoder::lemma_accelerations_wire_len;
use crate::decode::{car_matches_model, decode_car, fuel_model, performance_model};
use crate::error::CodecError;
use crate::header::{lemma_group_header_round_trip, lemma_header_round_trip, GroupHeader, MessageHeader};
use crate::message::{
    car_wire, encode_car, fuel_elems_wire, perf_elems_wire, Car, FuelFigure, PerformanceFigure,
};
use crate::parse::{parse_car, CarModel};
use crate::round_trip::{
    car_is_complete, lemma_car_truncated, lemma_car_wire_same, lemma_parse_car_wire, lemma_same_model, same_car,
};
use crate::var_data::{lemma_var_data_round_trip, MAX_VAR_DATA};
use vstd::bytes::*;
use vstd::prelude::*;
use vstd::slice::{slice_subrange, slice_to_vec};
use vstd::string::*;
use vstd::utf8::{encode_utf8_valid_utf8, valid_utf8};

verus! {

/// Why a buffer is not the reference car.
#[derive(Debug, Clone, Copy, PartialEq, Eq, Structural)]
pub enum ExampleError {
    /// The buffer could not be read, or the reference car not written.
    Codec(CodecError),
    /// The buffer reads, but holds other values or other bytes.
    Mismatch,
}

/// Bits of the `f32` values of the reference car.
pub const MPG_35_9: u32 = 0x420f_999a;

pub const MPG_49_0: u32 = 0x4244_0000;

pub const MPG_40_0: u32 = 0x4220_0000;

pub const SECONDS_4_0: u32 = 0x4080_0000;

pub const SECONDS_7_5: u32 = 0x40f0_0000;

pub const SECONDS_12_2: u32 = 0x4143_3333;

pub const SECONDS_3_8: u32 = 0x4073_3333;

pub const SECONDS_7_1: u32 = 0x40e3_3333;

pub const SECONDS_11_8: u32 = 0x413c_cccd;

pub open spec fn example_header() -> MessageHeader {
    MessageHeader {
        block_length: CAR_BLOCK_LENGTH,
        template_id: CAR_TEMPLATE_ID,
        schema_id: CAR_SCHEMA_ID,
        version: CAR_SCHEMA_VERSION,
    }
}

/// The top-level fields of the reference car, as read back.
pub open spec fn is_example_fields(f: CarFields) -> bool {
    &&& f.serial_number == 1234
    &&& f.model_year == 2013
    &&& f.available == BOOLEAN_TRUE
    &&& f.code == MODEL_A
    &&& f.some_numbers@ == seq![0u32, 1, 2, 3, 4]
    &&& f.vehicle_code@ == seq![97u8, 98, 99, 100, 101, 102]
    &&& f.extras == 6
    &&& f.engine.capacity == 2000
    &&& f.engine.num_cylinders == 4
    &&& f.engine.manufacturer_code@ == seq![49u8, 50, 51]
    &&& f.engine.efficiency == 35
    &&& f.engine.booster_enabled == BOOLEAN_TRUE
    &&& f.engine.boost_type == BOOST_NITROUS
    &&& f.engine.horse_power == 200
}

pub open spec fn is_fuel_figure(f: FuelFigure, speed: u16, mpg_bits: u32, usage: &str) -> bool {
    f.fields == (FuelFigureFields { speed, mpg_bits }) && f.usage_description@ == usage.spec_bytes()
}

pub open spec fn is_performance_figure(p: PerformanceFigure, octane: u8, s: Seq<u32>) -> bool {
    &&& p.fields.octane_rating == octane
    &&& p.acceleration@ == seq![
        Acceleration { mph: 30, seconds_bits: s[0] },
        Acceleration { mph: 60, seconds_bits: s[1] },
        Acceleration { mph: 100, seconds_bits: s[2] },
    ]
}

/// `c` is the reference car.
pub open spec fn is_example_car(c: Car) -> bool {
    &&& c.header == example_header()
    &&& is_example_fields(c.fields)
    &&& c.fuel_figures@.len() == 3
    &&& is_fuel_figure(c.fuel_figures@[0], 30, MPG_35_9, "Urban Cycle")
    &&& is_fuel_figure(c.fuel_figures@[1], 55, MPG_49_0, "Combined Cycle")
    &&& is_fuel_figure(c.fuel_figures@[2], 75, MPG_40_0, "Highway Cycle")
    &&& c.performance_figures@.len() == 2
    &&& is_performance_figure(
        c.performance_figures@[0],
        95,
        seq![SECONDS_4_0, SECONDS_7_5, SECONDS_12_2],
    )
    &&& is_performance_figure(
        c.performance_figures@[1],
        99,
        seq![SECONDS_3_8, SECONDS_7_1, SECONDS_11_8],
    )
    &&& c.manufacturer@ == "Honda".spec_bytes()
    &&& c.model@ == "Civic VTi".spec_bytes()
    &&& c.activation_code@ == "abcdef".spec_bytes()
}

fn accelerations(octane_rating: u8, s0: u32, s1: u32, s2: u32) -> (r: PerformanceFigure)
    ensures
        is_performance_figure(r, octane_rating, seq![s0, s1, s2]),
{
    let acceleration = vec![
        Acceleration { mph: 30, seconds_bits: s0 },
        Acceleration { mph: 60, seconds_bits: s1 },
        Acceleration { mph: 100, seconds_bits: s2 },
    ];
    PerformanceFigure { fields: PerformanceFigureFields { octane_rating }, acceleration }
}

/// The reference car.
pub fn example_car() -> (c: Car)
    ensures
        is_example_car(c),
{
    let fields = CarFields {
        serial_number: 1234,
        model_year: 2013,
        available: BOOLEAN_TRUE,
        code: MODEL_A,
        some_numbers: vec![0u32, 1, 2, 3, 4],
        vehicle_code: vec![97u8, 98, 99, 100, 101, 102],
        extras: 6,
        engine: Engine {
            capacity: 2000,
            num_cylinders: 4,
            manufacturer_code: vec![49u8, 50, 51],
            efficiency: 35,
            booster_enabled: BOOLEAN_TRUE,
            boost_type: BOOST_NITROUS,
            horse_power: 200,
        },
    };
    let fuel_figures = vec![
        FuelFigure {
            fields: FuelFigureFields { speed: 30, mpg_bits: MPG_35_9 },
            usage_description: slice_to_vec("Urban Cycle".as_bytes()),
        },
        FuelFigure {
            fields: FuelFigureFields { speed: 55, mpg_bits: MPG_49_0 },
            usage_description: slice_to_vec("Combined Cycle".as_bytes()),
        },
        FuelFigure {
            fields: FuelFigureFields { speed: 75, mpg_bits: MPG_40_0 },
            usage_description: slice_to_vec("Highway Cycle".as_bytes()),
        },
    ];
    let performance_figures = vec![
        accelerations(95, SECONDS_4_0, SECONDS_7_5, SECONDS_12_2),
        accelerations(99, SECONDS_3_8, SECONDS_7_1, SECONDS_11_8),
    ];
    Car {
        header: MessageHeader {
            block_length: CAR_BLOCK_LENGTH,
            template_id: CAR_TEMPLATE_ID,
            schema_id: CAR_SCHEMA_ID,
            version: CAR_SCHEMA_VERSION,
        },
        fields,
        fuel_figures,
        performance_figures,
        manufacturer: slice_to_vec("Honda".as_bytes()),
        model: slice_to_vec("Civic VTi".as_bytes()),
        activation_code: slice_to_vec("abcdef".as_bytes()),
    }
}

/// Tells whether two byte sequences are equal.
pub fn bytes_equal(a: &[u8], b: &[u8]) -> (r: bool)
    ensures
        r == (a@ == b@),
{
    if a.len() != b.len() {
        return false;
    }
    let mut i: usize = 0;
    while i < a.len()
        invariant
            a@.len() == b@.len(),
            i <= a@.len(),
            forall|k: int| 0 <= k < i ==> a@[k] == b@[k],
        decreases a@.len() - i,
    {
        if a[i] != b[i] {
            return false;
        }
        i = i + 1;
    }
    assert(a@ =~= b@);
    true
}

/// Writes the reference car into a fresh buffer of 256 bytes and returns
/// the message alone.
pub fn encode_car_from_scratch() -> (r: Result<Vec<u8>, CodecError>)
    ensures
        r matches Ok(v) && exists|c: Car| is_example_car(c) && v@ == car_wire(c),
{
    let car = example_car();
    let buffer: Vec<u8> = vec![0u8; 256];
    proof {
        lemma_example_complete(car);
    }
    match encode_car(&car, buffer) {
        Ok((used, bytes)) => {
            let message = slice_to_vec(slice_subrange(bytes.as_slice(), 0, used));
            Ok(message)
        },
        Err(e) => Err(e),
    }
}

fn u32s_equal(a: &[u32], b: &[u32]) -> (r: bool)
    ensures
        r == (a@ == b@),
{
    if a.len() != b.len() {
        return false;
    }
    let mut i: usize = 0;
    while i < a.len()
        invariant
            a@.len() == b@.len(),
            i <= a@.len(),
            forall|k: int| 0 <= k < i ==> a@[k] == b@[k],
        decreases a@.len() - i,
    {
        if a[i] != b[i] {
            return false;
        }
        i = i + 1;
    }
    assert(a@ =~= b@);
    true
}

fn accelerations_equal(a: &[Acceleration], b: &[Acceleration]) -> (r: bool)
    ensures
        r == (a@ == b@),
{
    if a.len() != b.len() {
        return false;
    }
    let mut i: usize = 0;
    while i < a.len()
        invariant
            a@.len() == b@.len(),
            i <= a@.len(),
            forall|k: int| 0 <= k < i ==> a@[k] == b@[k],
        decreases a@.len() - i,
    {
        if a[i] != b[i] {
            return false;
        }
        i = i + 1;
    }
    assert(a@ =~= b@);
    true
}

/// Tells whether two records of top-level fields hold the same values.
pub fn fields_equal(a: &CarFields, b: &CarFields) -> (r: bool)
    ensures
        r == same_fields(*a, *b),
{
    a.serial_number == b.serial_number && a.model_year == b.model_year && a.available
        == b.available && a.code == b.code && u32s_equal(
        a.some_numbers.as_slice(),
        b.some_numbers.as_slice(),
    ) && bytes_equal(a.vehicle_code.as_slice(), b.vehicle_code.as_slice()) && a.extras
        == b.extras && a.engine.capacity == b.engine.capacity && a.engine.num_cylinders
        == b.engine.num_cylinders && bytes_equal(
        a.engine.manufacturer_code.as_slice(),
        b.engine.manufacturer_code.as_slice(),
    ) && a.engine.efficiency == b.engine.efficiency && a.engine.booster_enabled
        == b.engine.booster_enabled && a.engine.boost_type == b.engine.boost_type
        && a.engine.horse_power == b.engine.horse_power
}

proof fn lemma_literal_bytes()
    ensures
        "Urban Cycle".spec_bytes().len() == 11,
        "Combined Cycle".spec_bytes().len() == 14,
        "Highway Cycle".spec_bytes().len() == 13,
        "Honda".spec_bytes().len() == 5,
        "Civic VTi".spec_bytes().len() == 9,
        "abcdef".spec_bytes().len() == 6,
{
    reveal_strlit("Urban Cycle");
    assert(is_ascii("Urban Cycle"));
    is_ascii_spec_bytes("Urban Cycle");
    reveal_strlit("Combined Cycle");
    assert(is_ascii("Combined Cycle"));
    is_ascii_spec_bytes("Combined Cycle");
    reveal_strlit("Highway Cycle");
    assert(is_ascii("Highway Cycle"));
    is_ascii_spec_bytes("Highway Cycle");
    reveal_strlit("Honda");
    assert(is_ascii("Honda"));
    is_ascii_spec_bytes("Honda");
    reveal_strlit("Civic VTi");
    assert(is_ascii("Civic VTi"));
    is_ascii_spec_bytes("Civic VTi");
    reveal_strlit("abcdef");
    assert(is_ascii("abcdef"));
    is_ascii_spec_bytes("abcdef");
}

/// The reference car is complete and 211 bytes long on the wire.
pub proof fn lemma_example_complete(c: Car)
    requires
        is_example_car(c),
    ensures
        car_is_complete(c),
        car_wire(c).len() == 211,
{
    lemma_literal_bytes();
    let fv = c.fuel_figures@;
    let pv = c.performance_figures@;
    encode_utf8_valid_utf8("Urban Cycle"@);
    encode_utf8_valid_utf8("Combined Cycle"@);
    encode_utf8_valid_utf8("Highway Cycle"@);
    encode_utf8_valid_utf8("Honda"@);
    encode_utf8_valid_utf8("Civic VTi"@);
    encode_utf8_valid_utf8("abcdef"@);
    assert forall|i: int| 0 <= i < fv.len() implies valid_utf8(#[trigger] fv[i].usage_description@) by {
        if i == 0 {} else if i == 1 {} else {}
    }
    assert forall|i: int| 0 <= i < fv.len() implies #[trigger] fv[i].usage_description@.len()
        <= MAX_VAR_DATA by {
        if i == 0 {} else if i == 1 {} else {}
    }
    assert forall|i: int| 0 <= i < pv.len() implies #[trigger] pv[i].acceleration@.len()
        <= 0xffff by {
        if i == 0 {} else {}
    }
    reveal_with_fuel(fuel_elems_wire, 4);
    reveal_with_fuel(perf_elems_wire, 3);
    lemma_header_round_trip(c.header, Seq::empty());
    lemma_car_fields_wire_len(c.fields);
    lemma_group_header_round_trip(GroupHeader { block_length: 6, num_in_group: 3 }, Seq::empty());
    lemma_group_header_round_trip(GroupHeader { block_length: 1, num_in_group: 2 }, Seq::empty());
    lemma_auto_spec_u16_to_from_le_bytes();
    lemma_auto_spec_u32_to_from_le_bytes();
    lemma_var_data_round_trip(fv[0].usage_description@, Seq::empty());
    lemma_var_data_round_trip(fv[1].usage_description@, Seq::empty());
    lemma_var_data_round_trip(fv[2].usage_description@, Seq::empty());
    lemma_var_data_round_trip(c.manufacturer@, Seq::empty());
    lemma_var_data_round_trip(c.model@, Seq::empty());
    lemma_var_data_round_trip(c.activation_code@, Seq::empty());
    lemma_accelerations_wire_len(pv[0].acceleration@);
    lemma_accelerations_wire_len(pv[1].acceleration@);
    assert(fv.drop_last().drop_last().drop_last().len() == 0);
    assert(fv.drop_last().last() == fv[1]);
    assert(fv.drop_last().drop_last().last() == fv[0]);
    assert(pv.drop_last().drop_last().len() == 0);
    assert(pv.drop_last().last() == pv[0]);
    assert(fuel_elems_wire(fv).len() == 68);
    assert(perf_elems_wire(pv).len() == 46);
}

/// Any two cars that are the reference car hold the same values.
pub proof fn lemma_example_cars_same(a: Car, b: Car)
    requires
        is_example_car(a),
        is_example_car(b),
    ensures
        same_car(a, b),
{
    assert(fuel_model(a.fuel_figures@) =~= fuel_model(b.fuel_figures@));
    assert(performance_model(a.performance_figures@) =~= performance_model(b.performance_figures@));
}

/// A car written on its own reads back as values that it matches.
proof fn lemma_matches_own_wire(c: Car)
    requires
        car_is_complete(c),
    ensures
        parse_car(car_wire(c)) matches Ok((m, _)) && car_matches_model(c, m),
{
    assert(car_wire(c) + Seq::<u8>::empty() =~= car_wire(c));
    lemma_parse_car_wire(c, Seq::empty());
    lemma_car_fields_read_own_wire(c.fields, Seq::empty());
    assert(car_fields_wire(c.fields) + Seq::<u8>::empty() =~= car_fields_wire(c.fields));
}

fn fuel_figures_equal(a: &Vec<FuelFigure>, b: &Vec<FuelFigure>) -> (r: bool)
    ensures
        r == (fuel_model(a@) == fuel_model(b@)),
{
    if a.len() != b.len() {
        assert(fuel_model(a@).len() != fuel_model(b@).len());
        return false;
    }
    let mut i: usize = 0;
    while i < a.len()
        invariant
            a@.len() == b@.len(),
            i <= a@.len(),
            forall|k: int| 0 <= k < i ==> #[trigger] fuel_model(a@)[k] == fuel_model(b@)[k],
        decreases a@.len() - i,
    {
        if a[i].fields != b[i].fields || !bytes_equal(
            a[i].usage_description.as_slice(),
            b[i].usage_description.as_slice(),
        ) {
            assert(fuel_model(a@)[i as int] != fuel_model(b@)[i as int]);
            return false;
        }
        i = i + 1;
    }
    assert(fuel_model(a@) =~= fuel_model(b@));
    true
}

fn performance_figures_equal(a: &Vec<PerformanceFigure>, b: &Vec<PerformanceFigure>) -> (r: bool)
    ensures
        r == (performance_model(a@) == performance_model(b@)),
{
    if a.len() != b.len() {
        assert(performance_model(a@).len() != performance_model(b@).len());
        return false;
    }
    let mut i: usize = 0;
    while i < a.len()
        invariant
            a@.len() == b@.len(),
            i <= a@.len(),
            forall|k: int| 0 <= k < i ==> #[trigger] performance_model(a@)[k] == performance_model(b@)[k],
        decreases a@.len() - i,
    {
        if a[i].fields.octane_rating != b[i].fields.octane_rating || !accelerations_equal(
            a[i].acceleration.as_slice(),
            b[i].acceleration.as_slice(),
        ) {
            assert(performance_model(a@)[i as int] != performance_model(b@)[i as int]);
            return false;
        }
        i = i + 1;
    }
    assert(performance_model(a@) =~= performance_model(b@));
    true
}

/// Tells whether two cars hold the same values.
pub fn cars_equal(a: &Car, b: &Car) -> (r: bool)
    ensures
        r == same_car(*a, *b),
{
    a.header == b.header && fields_equal(&a.fields, &b.fields) && fuel_figures_equal(
        &a.fuel_figures,
        &b.fuel_figures,
    ) && performance_figures_equal(&a.performance_figures, &b.performance_figures)
        && bytes_equal(a.manufacturer.as_slice(), b.manufacturer.as_slice()) && bytes_equal(
        a.model.as_slice(),
        b.model.as_slice(),
    ) && bytes_equal(a.activation_code.as_slice(), b.activation_code.as_slice())
}

/// Reads `buffer` and tells whether it holds the reference car.
pub fn decode_car_and_check_expected_content(buffer: &[u8]) -> (r: Result<bool, CodecError>)
    ensures
        match r {
            Ok(b) => parse_car(buffer@) matches Ok((m, _)) && (b <==> exists|c: Car|
                is_example_car(c) && car_matches_model(c, m)),
            Err(e) => parse_car(buffer@) == Err::<(CarModel, int), _>(e),
        },
{
    let (car, _) = decode_car(buffer)?;
    let expected = example_car();
    let b = cars_equal(&car, &expected);
    proof {
        let m = parse_car(buffer@).unwrap().0;
        if b {
            let (cf, ef) = (fuel_model(car.fuel_figures@), fuel_model(expected.fuel_figures@));
            let (cp, ep) = (
                performance_model(car.performance_figures@),
                performance_model(expected.performance_figures@),
            );
            assert(cf.len() == car.fuel_figures@.len() && ef.len() == 3);
            assert(cp.len() == car.performance_figures@.len() && ep.len() == 2);
            assert(cf[0] == ef[0] && cf[1] == ef[1] && cf[2] == ef[2]);
            assert(cp[0] == ep[0] && cp[1] == ep[1]);
            assert(is_example_car(car));
        } else {
            assert forall|c: Car| !(is_example_car(c) && car_matches_model(c, m)) by {
                if is_example_car(c) && car_matches_model(c, m) {
                    lemma_same_model(car, c, m);
                    lemma_example_cars_same(c, expected);
                }
            }
        }
    }
    Ok(b)
}

/// Checks that `reference_example_bytes` holds the reference car and equals,
/// byte for byte, the reference car written from scratch, which must read
/// back as the reference car too. It succeeds exactly when the bytes are the
/// reference car's.
pub fn run_car_example(reference_example_bytes: &[u8]) -> (r: Result<(), ExampleError>)
    ensures
        r is Ok <==> exists|c: Car| is_example_car(c) && reference_example_bytes@ == car_wire(c),
        forall|e: CodecError|
            parse_car(reference_example_bytes@) == Err::<(CarModel, int), _>(e) <==> r == Err::<
                (),
                ExampleError,
            >(ExampleError::Codec(e)),
        r == Err::<(), ExampleError>(ExampleError::Mismatch) ==> parse_car(
            reference_example_bytes@,
        ) is Ok,
        forall|c: Car, k: int|
            is_example_car(c) && 0 <= k < car_wire(c).len() && reference_example_bytes@ == car_wire(
                c,
            ).take(k) ==> r == Err::<(), ExampleError>(ExampleError::Codec(CodecError::OutOfBounds)),
{
    let ghost reference = reference_example_bytes@;
    proof {
        assert forall|c: Car, k: int|
            is_example_car(c) && 0 <= k < car_wire(c).len() && reference == car_wire(c).take(
                k,
            ) implies parse_car(reference) == Err::<(CarModel, int), _>(
            CodecError::OutOfBounds,
        ) by {
            lemma_example_complete(c);
            lemma_car_truncated(c, k);
        }
        if exists|c: Car| is_example_car(c) && reference == car_wire(c) {
            let c = choose|c: Car| is_example_car(c) && reference == car_wire(c);
            lemma_example_complete(c);
            lemma_matches_own_wire(c);
        }
    }
    match decode_car_and_check_expected_content(reference_example_bytes) {
        Ok(true) => {},
        Ok(false) => return Err(ExampleError::Mismatch),
        Err(e) => return Err(ExampleError::Codec(e)),
    }
    let bytes_encoded = match encode_car_from_scratch() {
        Ok(v) => v,
        Err(e) => return Err(ExampleError::Codec(e)),
    };
    let ghost built = choose|c: Car| is_example_car(c) && bytes_encoded@ == car_wire(c);
    if !bytes_equal(reference_example_bytes, bytes_encoded.as_slice()) {
        proof {
            assert forall|c: Car| is_example_car(c) implies reference != car_wire(c) by {
                lemma_example_cars_same(c, built);
                lemma_car_wire_same(c, built);
            }
        }
        return Err(ExampleError::Mismatch);
    }
    match decode_car_and_check_expected_content(bytes_encoded.as_slice()) {
        Ok(true) => Ok(()),
        Ok(false) => Err(ExampleError::Mismatch),
        Err(e) => Err(ExampleError::Codec(e)),
    }
}

} // verus!
