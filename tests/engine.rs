use sbe_codec::car_encoder::start_encoding_car;
use sbe_codec::car::{CarFields, Engine, FuelFigureFields};
use sbe_codec::car_decoder::start_decoding_car;
use sbe_codec::error::CodecError;
use sbe_codec::group::{GroupReader, GroupWriter, Step};
use sbe_codec::header::{GroupHeader, MessageHeader};
use sbe_codec::reader::ReadCursor;
use sbe_codec::writer::WriteCursor;

fn fields() -> CarFields {
    CarFields {
        serial_number: 1,
        model_year: 2,
        available: 0,
        code: b'B',
        some_numbers: vec![],
        vehicle_code: vec![],
        extras: 0,
        engine: Engine {
            capacity: 0,
            num_cylinders: 0,
            manufacturer_code: vec![],
            efficiency: 0,
            booster_enabled: 0,
            boost_type: b'T',
            horse_power: 0,
        },
    }
}

#[test]
fn header_round_trip() {
    let h = MessageHeader { block_length: 0x1234, template_id: 7, schema_id: 0xffff, version: 3 };
    let mut w = WriteCursor::new(vec![0u8; 10]);
    w.put_header(&h).unwrap();
    let (n, buf) = w.finish();
    assert_eq!(n, 8);
    assert_eq!(&buf[..8], &[0x34, 0x12, 7, 0, 0xff, 0xff, 3, 0]);
    let mut r = ReadCursor::new(&buf);
    assert_eq!(r.get_header(), Ok(h));
    assert_eq!(r.position(), 8);
}

#[test]
fn header_in_short_buffer_is_out_of_bounds() {
    let mut w = WriteCursor::new(vec![0u8; 7]);
    assert_eq!(w.put_header(&MessageHeader { block_length: 1, template_id: 1, schema_id: 1, version: 1 }), Err(CodecError::OutOfBounds));
    let buf = [1u8, 0, 1, 0, 1, 0, 1];
    let mut r = ReadCursor::new(&buf);
    assert_eq!(r.get_header(), Err(CodecError::OutOfBounds));
}

#[test]
fn group_header_round_trip() {
    let g = GroupHeader { block_length: 6, num_in_group: 300 };
    let mut w = WriteCursor::new(vec![0u8; 4]);
    w.put_group_header(&g).unwrap();
    let (_, buf) = w.finish();
    assert_eq!(buf, vec![6, 0, 0x2c, 1]);
    assert_eq!(ReadCursor::new(&buf).get_group_header(), Ok(g));
}

#[test]
fn scalars_are_little_endian() {
    let mut w = WriteCursor::new(vec![0u8; 15]);
    w.put_u8(0xab).unwrap();
    w.put_u16(0x0102).unwrap();
    w.put_u32(0x03040506).unwrap();
    w.put_u64(0x0708090a0b0c0d0e).unwrap();
    assert_eq!(w.put_u8(1), Err(CodecError::OutOfBounds));
    let (n, buf) = w.finish();
    assert_eq!(n, 15);
    assert_eq!(buf, vec![0xab, 2, 1, 6, 5, 4, 3, 0x0e, 0x0d, 0x0c, 0x0b, 0x0a, 9, 8, 7]);
    let mut r = ReadCursor::new(&buf);
    assert_eq!(r.get_u8(), Ok(0xab));
    assert_eq!(r.get_u16(), Ok(0x0102));
    assert_eq!(r.get_u32(), Ok(0x03040506));
    assert_eq!(r.get_u64(), Ok(0x0708090a0b0c0d0e));
    assert_eq!(r.get_u8(), Err(CodecError::OutOfBounds));
}

#[test]
fn var_data_round_trip_and_views() {
    let mut w = WriteCursor::new(vec![0u8; 20]);
    w.put_var_data(b"hello").unwrap();
    w.put_var_data(b"").unwrap();
    let (n, buf) = w.finish();
    assert_eq!(n, 13);
    assert_eq!(&buf[..9], &[5, 0, 0, 0, b'h', b'e', b'l', b'l', b'o']);
    let mut r = ReadCursor::new(&buf[..n]);
    let v = r.get_var_data().unwrap();
    assert_eq!(v, b"hello");
    assert_eq!(v.as_ptr(), buf[4..].as_ptr());
    assert_eq!(r.get_var_data(), Ok(&b""[..]));
    assert_eq!(r.position(), 13);
}

#[test]
fn var_data_length_equals_prefix() {
    let body = [7u8; 10];
    for len in 0u32..=10 {
        let mut buf = len.to_le_bytes().to_vec();
        buf.extend_from_slice(&body);
        let mut r = ReadCursor::new(&buf);
        assert_eq!(r.get_var_data().unwrap().len(), len as usize);
    }
    let mut buf = 11u32.to_le_bytes().to_vec();
    buf.extend_from_slice(&body);
    assert_eq!(ReadCursor::new(&buf).get_var_data(), Err(CodecError::OutOfBounds));
}

#[test]
fn var_data_into_short_buffer_is_out_of_bounds() {
    let mut w = WriteCursor::new(vec![0u8; 8]);
    assert_eq!(w.put_var_data(b"hello"), Err(CodecError::OutOfBounds));
    assert_eq!(w.position(), 0);
}

#[test]
fn var_str_checks_utf8() {
    let mut buf = 2u32.to_le_bytes().to_vec();
    buf.extend_from_slice(&[0xc3, 0xa9]);
    assert_eq!(ReadCursor::new(&buf).get_var_str(), Ok("é"));
    let mut bad = 2u32.to_le_bytes().to_vec();
    bad.extend_from_slice(&[0xc3, 0x28]);
    assert_eq!(ReadCursor::new(&bad).get_var_str(), Err(CodecError::MalformedUtf8));
}

#[test]
fn padded_array_field() {
    let mut w = WriteCursor::new(vec![9u8; 6]);
    w.put_padded(b"ab", 4).unwrap();
    assert_eq!(w.put_padded(b"abc", 2), Err(CodecError::LengthMismatch));
    let (n, buf) = w.finish();
    assert_eq!(n, 4);
    assert_eq!(buf, vec![b'a', b'b', 0, 0, 9, 9]);
}

#[test]
fn group_reader_yields_count_elements_then_exhausted() {
    for count in [0u16, 1, 3, 100] {
        let mut g = GroupReader::new(6, count);
        let mut elements = 0;
        loop {
            match g.next() {
                Step::HasElement(n) => {
                    elements += 1;
                    g = n;
                }
                Step::Exhausted(_) => break,
            }
        }
        assert_eq!(elements, count);
    }
}

#[test]
fn group_writer_counts_against_declared() {
    let mut g = GroupWriter::new(2);
    assert_eq!(g.finish(), Err(CodecError::LengthMismatch));
    assert_eq!(g.begin_element(), Ok(()));
    assert_eq!(g.begin_element(), Ok(()));
    assert_eq!(g.begin_element(), Err(CodecError::LengthMismatch));
    assert_eq!(g.finish(), Ok(()));
}

fn encode_fuel_group(count: u16) -> Vec<u8> {
    let enc = start_encoding_car(vec![0u8; 1000]);
    let enc = enc.header_copy(&MessageHeader { block_length: 49, template_id: 1, schema_id: 1, version: 0 }).unwrap();
    let enc = enc.car_fields(&fields()).unwrap();
    let mut enc = enc.fuel_figures_individually(count).unwrap();
    for i in 0..count {
        let u = enc.next_fuel_figures_member(&FuelFigureFields { speed: i, mpg_bits: 0 }).unwrap();
        enc = u.usage_description(b"x").unwrap();
    }
    let enc = enc.done_with_fuel_figures().unwrap();
    let enc = enc.performance_figures_individually(0).unwrap();
    let enc = enc.done_with_performance_figures().unwrap();
    let enc = enc.manufacturer(b"").unwrap();
    let enc = enc.model(b"").unwrap();
    let done = enc.activation_code(b"").unwrap();
    let (n, mut buf) = done.unwrap();
    buf.truncate(n);
    buf
}

#[test]
fn decoded_group_has_exactly_count_elements() {
    for count in [0u16, 1, 2, 5] {
        let buf = encode_fuel_group(count);
        let (_, dec) = start_decoding_car(&buf).header().unwrap();
        let (_, dec) = dec.car_fields().unwrap();
        let mut step = dec.fuel_figures_individually().unwrap();
        let mut speeds = Vec::new();
        let dec = loop {
            match step {
                Step::HasElement(m) => {
                    let (f, u) = m.next_fuel_figures_member().unwrap();
                    speeds.push(f.speed);
                    let (d, next) = u.usage_description().unwrap();
                    assert_eq!(d, b"x");
                    step = next;
                }
                Step::Exhausted(d) => break d,
            }
        };
        assert_eq!(speeds, (0..count).collect::<Vec<_>>());
        assert!(matches!(dec.performance_figures_individually(), Ok(Step::Exhausted(_))));
    }
}

#[test]
fn group_with_fewer_elements_than_declared_is_length_mismatch() {
    let enc = start_encoding_car(vec![0u8; 200]);
    let enc = enc.header_copy(&MessageHeader { block_length: 49, template_id: 1, schema_id: 1, version: 0 }).unwrap();
    let enc = enc.car_fields(&fields()).unwrap();
    let enc = enc.fuel_figures_individually(2).unwrap();
    let u = enc.next_fuel_figures_member(&FuelFigureFields { speed: 1, mpg_bits: 0 }).unwrap();
    let enc = u.usage_description(b"a").unwrap();
    assert_eq!(enc.done_with_fuel_figures().err(), Some(CodecError::LengthMismatch));
}

#[test]
fn group_with_more_elements_than_declared_is_length_mismatch() {
    let enc = start_encoding_car(vec![0u8; 200]);
    let enc = enc.header_copy(&MessageHeader { block_length: 49, template_id: 1, schema_id: 1, version: 0 }).unwrap();
    let enc = enc.car_fields(&fields()).unwrap();
    let enc = enc.fuel_figures_individually(0).unwrap();
    assert_eq!(
        enc.next_fuel_figures_member(&FuelFigureFields { speed: 1, mpg_bits: 0 }).err(),
        Some(CodecError::LengthMismatch)
    );
}

#[test]
fn fields_fill_default_values() {
    let buf = encode_fuel_group(0);
    assert_eq!(buf.len(), 8 + 49 + 4 + 4 + 12);
    assert_eq!(&buf[8 + 12..8 + 32], &[0u8; 20]);
}
