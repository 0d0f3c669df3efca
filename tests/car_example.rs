use sbe_codec::car::{Acceleration, FuelFigureFields, PerformanceFigureFields};
use sbe_codec::car_decoder::start_decoding_car;
use sbe_codec::error::CodecError;
use sbe_codec::example::{
    decode_car_and_check_expected_content, encode_car_from_scratch, example_car, run_car_example,
    ExampleError, MPG_35_9, MPG_40_0, MPG_49_0, SECONDS_11_8, SECONDS_12_2, SECONDS_3_8,
    SECONDS_4_0, SECONDS_7_1, SECONDS_7_5,
};
use sbe_codec::decode::decode_car;
use sbe_codec::group::Step;
use sbe_codec::message::encode_car;

fn var(out: &mut Vec<u8>, s: &str) {
    out.extend_from_slice(&(s.len() as u32).to_le_bytes());
    out.extend_from_slice(s.as_bytes());
}

/// The reference car, laid out by hand from the message layout.
fn reference_bytes() -> Vec<u8> {
    let mut b = Vec::new();
    for v in [49u16, 1, 1, 0] {
        b.extend_from_slice(&v.to_le_bytes());
    }
    b.extend_from_slice(&1234u64.to_le_bytes());
    b.extend_from_slice(&2013u16.to_le_bytes());
    b.push(1);
    b.push(b'A');
    for n in 0u32..5 {
        b.extend_from_slice(&n.to_le_bytes());
    }
    b.extend_from_slice(b"abcdef");
    b.push(6);
    b.extend_from_slice(&2000u16.to_le_bytes());
    b.push(4);
    b.extend_from_slice(b"123");
    b.push(35);
    b.push(1);
    b.push(b'N');
    b.push(200);
    b.extend_from_slice(&6u16.to_le_bytes());
    b.extend_from_slice(&3u16.to_le_bytes());
    for (speed, mpg, usage) in [
        (30u16, 35.9f32, "Urban Cycle"),
        (55, 49.0, "Combined Cycle"),
        (75, 40.0, "Highway Cycle"),
    ] {
        b.extend_from_slice(&speed.to_le_bytes());
        b.extend_from_slice(&mpg.to_le_bytes());
        var(&mut b, usage);
    }
    b.extend_from_slice(&1u16.to_le_bytes());
    b.extend_from_slice(&2u16.to_le_bytes());
    for (octane, secs) in [(95u8, [4.0f32, 7.5, 12.2]), (99, [3.8, 7.1, 11.8])] {
        b.push(octane);
        b.extend_from_slice(&6u16.to_le_bytes());
        b.extend_from_slice(&3u16.to_le_bytes());
        for (mph, s) in [30u16, 60, 100].iter().zip(secs.iter()) {
            b.extend_from_slice(&mph.to_le_bytes());
            b.extend_from_slice(&s.to_le_bytes());
        }
    }
    var(&mut b, "Honda");
    var(&mut b, "Civic VTi");
    var(&mut b, "abcdef");
    b
}

/// Walks the whole message through the accessor chain.
fn decode_all(buf: &[u8]) -> Result<usize, CodecError> {
    let (_, dec) = start_decoding_car(buf).header()?;
    let (_, dec) = dec.car_fields()?;
    let mut step = dec.fuel_figures_individually()?;
    let dec = loop {
        match step {
            Step::HasElement(m) => {
                let (_, u) = m.next_fuel_figures_member()?;
                let (_, next) = u.usage_description()?;
                step = next;
            }
            Step::Exhausted(d) => break d,
        }
    };
    let mut step = dec.performance_figures_individually()?;
    let dec = loop {
        match step {
            Step::HasElement(m) => {
                let (_, a) = m.next_performance_figures_member()?;
                let (_, next) = a.acceleration()?;
                step = next;
            }
            Step::Exhausted(d) => break d,
        }
    };
    let (_, dec) = dec.manufacturer()?;
    let (_, dec) = dec.model()?;
    let (_, done) = dec.activation_code()?;
    Ok(done.unwrap().0)
}

#[test]
fn float_bit_constants_match_the_values() {
    assert_eq!(MPG_35_9, 35.9f32.to_bits());
    assert_eq!(MPG_49_0, 49.0f32.to_bits());
    assert_eq!(MPG_40_0, 40.0f32.to_bits());
    assert_eq!(SECONDS_4_0, 4.0f32.to_bits());
    assert_eq!(SECONDS_7_5, 7.5f32.to_bits());
    assert_eq!(SECONDS_12_2, 12.2f32.to_bits());
    assert_eq!(SECONDS_3_8, 3.8f32.to_bits());
    assert_eq!(SECONDS_7_1, 7.1f32.to_bits());
    assert_eq!(SECONDS_11_8, 11.8f32.to_bits());
}

#[test]
fn encoding_matches_reference_bytes() {
    let encoded = encode_car_from_scratch().unwrap();
    let reference = reference_bytes();
    assert_eq!(reference.len(), 211);
    assert_eq!(encoded, reference);
}

#[test]
fn run_car_example_accepts_reference() {
    assert_eq!(run_car_example(&reference_bytes()), Ok(()));
}

#[test]
fn run_car_example_rejects_changed_byte() {
    let mut b = reference_bytes();
    b[8] = 0xd3; // serial number 1235
    assert_eq!(run_car_example(&b), Err(ExampleError::Mismatch));
}

#[test]
fn run_car_example_rejects_truncated() {
    let b = reference_bytes();
    assert_eq!(
        run_car_example(&b[..100]),
        Err(ExampleError::Codec(CodecError::OutOfBounds))
    );
}

#[test]
fn decode_reference_reproduces_every_value() {
    let buf = reference_bytes();
    assert_eq!(decode_car_and_check_expected_content(&buf), Ok(true));
    let (h, dec) = start_decoding_car(&buf).header().unwrap();
    assert_eq!((h.block_length, h.template_id, h.schema_id, h.version), (49, 1, 1, 0));
    let (f, dec) = dec.car_fields().unwrap();
    assert_eq!(f.serial_number, 1234);
    assert_eq!(f.model_year, 2013);
    assert_eq!(f.available, 1);
    assert_eq!(f.code, b'A');
    assert_eq!(f.some_numbers, vec![0, 1, 2, 3, 4]);
    assert_eq!(f.vehicle_code, b"abcdef".to_vec());
    assert_eq!(f.extras, 6);
    assert_eq!(f.engine.capacity, 2000);
    assert_eq!(f.engine.manufacturer_code, b"123".to_vec());
    assert_eq!(f.engine.boost_type, b'N');
    assert_eq!(f.engine.horse_power, 200);
    let mut found = Vec::new();
    let mut step = dec.fuel_figures_individually().unwrap();
    let dec = loop {
        match step {
            Step::HasElement(m) => {
                let (ff, u) = m.next_fuel_figures_member().unwrap();
                let (usage, next) = u.usage_description().unwrap();
                found.push((ff.speed, f32::from_bits(ff.mpg_bits), std::str::from_utf8(usage).unwrap().to_string()));
                step = next;
            }
            Step::Exhausted(d) => break d,
        }
    };
    assert_eq!(
        found,
        vec![
            (30, 35.9f32, "Urban Cycle".to_string()),
            (55, 49.0, "Combined Cycle".to_string()),
            (75, 40.0, "Highway Cycle".to_string()),
        ]
    );
    let mut perf = Vec::new();
    let mut step = dec.performance_figures_individually().unwrap();
    let dec = loop {
        match step {
            Step::HasElement(m) => {
                let (pf, a) = m.next_performance_figures_member().unwrap();
                let (acc, next) = a.acceleration().unwrap();
                perf.push((pf.octane_rating, acc.iter().map(|x| (x.mph, f32::from_bits(x.seconds_bits))).collect::<Vec<_>>()));
                step = next;
            }
            Step::Exhausted(d) => break d,
        }
    };
    assert_eq!(perf.len(), 2);
    assert_eq!(perf[0], (95, vec![(30, 4.0f32), (60, 7.5), (100, 12.2)]));
    assert_eq!(perf[1], (99, vec![(30, 3.8f32), (60, 7.1), (100, 11.8)]));
    let (m, dec) = dec.manufacturer().unwrap();
    assert_eq!(m, b"Honda");
    let (m, dec) = dec.model().unwrap();
    assert_eq!(m, b"Civic VTi");
    let (a, done) = dec.activation_code().unwrap();
    assert_eq!(a, b"abcdef");
    let (pos, back) = done.unwrap();
    assert_eq!(pos, 211);
    assert_eq!(back.len(), 211);
}

#[test]
fn every_truncated_prefix_is_out_of_bounds() {
    let buf = reference_bytes();
    assert_eq!(decode_all(&buf), Ok(buf.len()));
    for k in 0..buf.len() {
        assert_eq!(decode_all(&buf[..k]), Err(CodecError::OutOfBounds), "prefix {}", k);
    }
}

#[test]
fn round_trip_of_changed_car() {
    let mut car = example_car();
    car.fields.serial_number = 99;
    car.fuel_figures.truncate(1);
    car.performance_figures[1].acceleration.clear();
    car.model = b"Jazz".to_vec();
    let (n, bytes) = encode_car(&car, vec![0u8; 300]).unwrap();
    let msg = &bytes[..n];
    assert_eq!(decode_all(msg), Ok(n));
    let (_, dec) = start_decoding_car(msg).header().unwrap();
    let (f, dec) = dec.car_fields().unwrap();
    assert_eq!(f.serial_number, 99);
    let mut count = 0;
    let mut step = dec.fuel_figures_individually().unwrap();
    let dec = loop {
        match step {
            Step::HasElement(m) => {
                let (ff, u) = m.next_fuel_figures_member().unwrap();
                assert_eq!(ff, FuelFigureFields { speed: 30, mpg_bits: MPG_35_9 });
                let (_, next) = u.usage_description().unwrap();
                count += 1;
                step = next;
            }
            Step::Exhausted(d) => break d,
        }
    };
    assert_eq!(count, 1);
    let mut accel_counts = Vec::new();
    let mut step = dec.performance_figures_individually().unwrap();
    let dec = loop {
        match step {
            Step::HasElement(m) => {
                let (pf, a) = m.next_performance_figures_member().unwrap();
                let (acc, next) = a.acceleration().unwrap();
                accel_counts.push((pf, acc.len()));
                step = next;
            }
            Step::Exhausted(d) => break d,
        }
    };
    assert_eq!(
        accel_counts,
        vec![
            (PerformanceFigureFields { octane_rating: 95 }, 3),
            (PerformanceFigureFields { octane_rating: 99 }, 0)
        ]
    );
    let (_, dec) = dec.manufacturer().unwrap();
    let (m, _) = dec.model().unwrap();
    assert_eq!(m, b"Jazz");
}

#[test]
fn encode_car_into_short_buffer_is_out_of_bounds() {
    let car = example_car();
    assert_eq!(encode_car(&car, vec![0u8; 210]).err(), Some(CodecError::OutOfBounds));
    assert!(encode_car(&car, vec![0u8; 211]).is_ok());
}

#[test]
fn encode_car_with_too_long_vehicle_code_is_length_mismatch() {
    let mut car = example_car();
    car.fields.vehicle_code = b"abcdefg".to_vec();
    assert_eq!(encode_car(&car, vec![0u8; 300]).err(), Some(CodecError::LengthMismatch));
}

#[test]
fn short_vehicle_code_is_padded_with_zeros() {
    let mut car = example_car();
    car.fields.vehicle_code = b"ab".to_vec();
    let (n, bytes) = encode_car(&car, vec![0xffu8; 300]).unwrap();
    assert_eq!(&bytes[8 + 32..8 + 38], &[b'a', b'b', 0, 0, 0, 0]);
    let (_, dec) = start_decoding_car(&bytes[..n]).header().unwrap();
    let (f, _) = dec.car_fields().unwrap();
    assert_eq!(f.vehicle_code, vec![b'a', b'b', 0, 0, 0, 0]);
}

#[test]
fn wider_block_is_skipped() {
    let reference = reference_bytes();
    let mut b = reference[..8].to_vec();
    b[0] = 51;
    b.extend_from_slice(&reference[8..57]);
    b.extend_from_slice(&[0xee, 0xee]);
    b.extend_from_slice(&reference[57..]);
    assert_eq!(decode_all(&b), Ok(213));
    let (_, dec) = start_decoding_car(&b).header().unwrap();
    let (f, dec) = dec.car_fields().unwrap();
    assert_eq!(f.engine.horse_power, 200);
    assert!(matches!(dec.fuel_figures_individually(), Ok(Step::HasElement(_))));
}

#[test]
fn narrower_block_is_length_mismatch() {
    let mut b = reference_bytes();
    b[0] = 48;
    let (_, dec) = start_decoding_car(&b).header().unwrap();
    assert_eq!(dec.car_fields().err(), Some(CodecError::LengthMismatch));
}

#[test]
fn acceleration_values_survive_encoding() {
    let a = Acceleration { mph: 60, seconds_bits: SECONDS_7_5 };
    let car = example_car();
    assert_eq!(car.performance_figures[0].acceleration[1], a);
}

#[test]
fn decode_car_reads_reference_values() {
    let buf = reference_bytes();
    let (car, n) = decode_car(&buf).unwrap();
    assert_eq!(n, 211);
    let expected = example_car();
    assert_eq!(car.header, expected.header);
    assert_eq!(car.fields.serial_number, 1234);
    assert_eq!(car.fields.vehicle_code, b"abcdef".to_vec());
    assert_eq!(car.fuel_figures.len(), 3);
    for (a, b) in car.fuel_figures.iter().zip(expected.fuel_figures.iter()) {
        assert_eq!(a.fields, b.fields);
        assert_eq!(a.usage_description, b.usage_description);
    }
    assert_eq!(car.fuel_figures[1].usage_description, b"Combined Cycle".to_vec());
    assert_eq!(car.performance_figures.len(), 2);
    for (a, b) in car.performance_figures.iter().zip(expected.performance_figures.iter()) {
        assert_eq!(a.fields, b.fields);
        assert_eq!(a.acceleration, b.acceleration);
    }
    assert_eq!(car.manufacturer, b"Honda".to_vec());
    assert_eq!(car.model, b"Civic VTi".to_vec());
    assert_eq!(car.activation_code, b"abcdef".to_vec());
}

#[test]
fn decode_car_of_encoded_car_round_trips() {
    let mut car = example_car();
    car.fields.model_year = 2020;
    car.fuel_figures.pop();
    car.manufacturer = Vec::new();
    let (n, bytes) = encode_car(&car, vec![0u8; 400]).unwrap();
    let (back, m) = decode_car(&bytes).unwrap();
    assert_eq!(m, n);
    assert_eq!(back.fields.model_year, 2020);
    assert_eq!(back.fuel_figures.len(), 2);
    assert_eq!(back.manufacturer, Vec::<u8>::new());
    assert_eq!(back.model, b"Civic VTi".to_vec());
    let (_, again) = encode_car(&back, vec![0u8; 400]).unwrap();
    assert_eq!(&again[..n], &bytes[..n]);
}

#[test]
fn decode_car_of_truncated_message_fails() {
    let buf = reference_bytes();
    for k in 0..buf.len() {
        assert_eq!(decode_car(&buf[..k]).err(), Some(CodecError::OutOfBounds), "prefix {}", k);
    }
}

fn with_bad_usage_description() -> Vec<u8> {
    let mut b = reference_bytes();
    // first usage description: 8 + 49 + 4 + 6 + 4 = offset 71, 11 bytes
    for x in &mut b[71..82] {
        *x = 0xff;
    }
    b
}

#[test]
fn decode_car_reports_malformed_usage_description() {
    let b = with_bad_usage_description();
    assert_eq!(decode_car(&b).err(), Some(CodecError::MalformedUtf8));
    assert_eq!(decode_car_and_check_expected_content(&b), Err(CodecError::MalformedUtf8));
    assert_eq!(run_car_example(&b), Err(ExampleError::Codec(CodecError::MalformedUtf8)));
}

#[test]
fn decode_car_reports_malformed_model() {
    let mut b = reference_bytes();
    let n = b.len();
    // model "Civic VTi" ends 4 + 6 bytes before the end
    b[n - 11] = 0xc3;
    assert_eq!(decode_car(&b).err(), Some(CodecError::MalformedUtf8));
}

#[test]
fn run_car_example_on_strict_prefix_is_out_of_bounds() {
    let b = reference_bytes();
    for k in [0usize, 7, 57, 100, 210] {
        assert_eq!(
            run_car_example(&b[..k]),
            Err(ExampleError::Codec(CodecError::OutOfBounds))
        );
    }
}

#[test]
fn too_long_activation_code_prefix_is_out_of_bounds() {
    let mut b = reference_bytes();
    let n = b.len();
    b[n - 10] = 7;
    assert_eq!(decode_car(&b).err(), Some(CodecError::OutOfBounds));
    assert_eq!(decode_car_and_check_expected_content(&b), Err(CodecError::OutOfBounds));
}

#[test]
fn short_block_length_is_length_mismatch_through_decode_car() {
    let mut b = reference_bytes();
    b[0] = 40;
    assert_eq!(decode_car(&b).err(), Some(CodecError::LengthMismatch));
}
