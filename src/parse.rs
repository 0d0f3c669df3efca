//! What reading a whole car message yields, as spec functions over bytes.
use crate::car::{Acceleration, FuelFigureFields};
use crate::error::CodecError;
use crate::header::{parse_group_header, parse_header, MessageHeader};
use crate::var_data::parse_var_data;
use crate::wire::{from_le16, from_le32};
use vstd::prelude::*;
use vstd::utf8::valid_utf8;

verus! {

/// The values of a car message as they are read from the wire. The top-level
/// fixed block is kept as its first 49 bytes.
pub struct CarModel {
    pub header: MessageHeader,
    pub block: Seq<u8>,
    pub fuel_figures: Seq<(FuelFigureFields, Seq<u8>)>,
    pub performance_figures: Seq<(u8, Seq<Acceleration>)>,
    pub manufacturer: Seq<u8>,
    pub model: Seq<u8>,
    pub activation_code: Seq<u8>,
}

/// `n` fuel-figures elements at the start of `s`, each a fixed block of `bl`
/// bytes and a usage description in UTF-8; with the bytes they take, or the
/// error that reading them meets first.
pub open spec fn parse_fuel(s: Seq<u8>, bl: int, n: nat) -> Result<
    (Seq<(FuelFigureFields, Seq<u8>)>, int),
    CodecError,
>
    decreases n,
{
    if n == 0 {
        Ok((Seq::empty(), 0))
    } else if bl < 6 {
        Err(CodecError::LengthMismatch)
    } else if bl > s.len() {
        Err(CodecError::OutOfBounds)
    } else {
        match parse_var_data(s.skip(bl)) {
            None => Err(CodecError::OutOfBounds),
            Some(d) => if !valid_utf8(d) {
                Err(CodecError::MalformedUtf8)
            } else {
                let k = bl + 4 + d.len();
                match parse_fuel(s.skip(k), bl, (n - 1) as nat) {
                    Err(e) => Err(e),
                    Ok((v, j)) => Ok(
                        (
                            seq![
                                (
                                    FuelFigureFields {
                                        speed: from_le16(s),
                                        mpg_bits: from_le32(s.skip(2)),
                                    },
                                    d,
                                ),
                            ] + v,
                            k + j,
                        ),
                    ),
                }
            },
        }
    }
}

/// `n` acceleration elements of `bl` bytes each at the start of `s`.
pub open spec fn parse_accelerations(s: Seq<u8>, bl: int, n: int) -> Result<
    Seq<Acceleration>,
    CodecError,
> {
    if n > 0 && bl < 6 {
        Err(CodecError::LengthMismatch)
    } else if n * bl > s.len() {
        Err(CodecError::OutOfBounds)
    } else {
        Ok(
            Seq::new(
                n as nat,
                |i: int|
                    Acceleration {
                        mph: from_le16(s.skip(i * bl)),
                        seconds_bits: from_le32(s.skip(i * bl + 2)),
                    },
            ),
        )
    }
}

/// `n` performance-figures elements at the start of `s`, each a fixed block
/// of `bl` bytes and an acceleration group; with the bytes they take, or the
/// error that reading them meets first.
pub open spec fn parse_performance(s: Seq<u8>, bl: int, n: nat) -> Result<
    (Seq<(u8, Seq<Acceleration>)>, int),
    CodecError,
>
    decreases n,
{
    if n == 0 {
        Ok((Seq::empty(), 0))
    } else if bl < 1 {
        Err(CodecError::LengthMismatch)
    } else if bl > s.len() {
        Err(CodecError::OutOfBounds)
    } else {
        let t = s.skip(bl);
        match parse_group_header(t) {
            None => Err(CodecError::OutOfBounds),
            Some(g) => {
                let gn = g.num_in_group as int;
                let gbl = g.block_length as int;
                match parse_accelerations(t.skip(4), gbl, gn) {
                    Err(e) => Err(e),
                    Ok(a) => {
                        let k = bl + 4 + gn * gbl;
                        match parse_performance(s.skip(k), bl, (n - 1) as nat) {
                            Err(e) => Err(e),
                            Ok((v, j)) => Ok((seq![(s[0], a)] + v, k + j)),
                        }
                    },
                }
            },
        }
    }
}

/// Text at the start of `s`: the data, or the error that reading it meets.
pub open spec fn parse_text(s: Seq<u8>) -> Result<Seq<u8>, CodecError> {
    match parse_var_data(s) {
        None => Err(CodecError::OutOfBounds),
        Some(d) => if valid_utf8(d) {
            Ok(d)
        } else {
            Err(CodecError::MalformedUtf8)
        },
    }
}

/// A group read as `n` elements holds exactly `n` of them.
pub proof fn lemma_group_element_counts(s: Seq<u8>, bl: int, n: nat)
    ensures
        parse_fuel(s, bl, n) matches Ok((v, _)) ==> v.len() == n,
        parse_performance(s, bl, n) matches Ok((v, _)) ==> v.len() == n,
        parse_accelerations(s, bl, n as int) matches Ok(v) ==> v.len() == n,
    decreases n,
{
    if n > 0 {
        if bl >= 1 && bl <= s.len() {
            if let Some(d) = parse_var_data(s.skip(bl)) {
                lemma_group_element_counts(s.skip(bl + 4 + d.len()), bl, (n - 1) as nat);
            }
            let t = s.skip(bl);
            if let Some(g) = parse_group_header(t) {
                let k = bl + 4 + g.num_in_group as int * g.block_length as int;
                lemma_group_element_counts(s.skip(k), bl, (n - 1) as nat);
            }
        }
    }
}

/// The car message at the start of `s`, with the bytes it takes, or the
/// error that reading it meets first.
pub open spec fn parse_car(s: Seq<u8>) -> Result<(CarModel, int), CodecError> {
    match parse_header(s) {
        None => Err(CodecError::OutOfBounds),
        Some(h) => {
            let bl = h.block_length as int;
            let s1 = s.skip(8);
            if bl < 49 {
                Err(CodecError::LengthMismatch)
            } else if bl > s1.len() {
                Err(CodecError::OutOfBounds)
            } else {
                let s2 = s1.skip(bl);
                match parse_group_header(s2) {
                    None => Err(CodecError::OutOfBounds),
                    Some(g1) => match parse_fuel(
                        s2.skip(4),
                        g1.block_length as int,
                        g1.num_in_group as nat,
                    ) {
                        Err(e) => Err(e),
                        Ok((fv, k1)) => {
                            let s3 = s2.skip(4 + k1);
                            match parse_group_header(s3) {
                                None => Err(CodecError::OutOfBounds),
                                Some(g2) => match parse_performance(
                                    s3.skip(4),
                                    g2.block_length as int,
                                    g2.num_in_group as nat,
                                ) {
                                    Err(e) => Err(e),
                                    Ok((pv, k2)) => {
                                        let s4 = s3.skip(4 + k2);
                                        match parse_text(s4) {
                                            Err(e) => Err(e),
                                            Ok(m1) => {
                                                let s5 = s4.skip(4 + m1.len() as int);
                                                match parse_text(s5) {
                                                    Err(e) => Err(e),
                                                    Ok(m2) => {
                                                        let s6 = s5.skip(4 + m2.len() as int);
                                                        match parse_text(s6) {
                                                            Err(e) => Err(e),
                                                            Ok(m3) => Ok(
                                                                (
                                                                    CarModel {
                                                                        header: h,
                                                                        block: s1.take(49),
                                                                        fuel_figures: fv,
                                                                        performance_figures: pv,
                                                                        manufacturer: m1,
                                                                        model: m2,
                                                                        activation_code: m3,
                                                                    },
                                                                    8 + bl + 4 + k1 + 4 + k2 + 4
                                                                        + m1.len() + 4 + m2.len()
                                                                        + 4 + m3.len(),
                                                                ),
                                                            ),
                                                        }
                                                    },
                                                }
                                            },
                                        }
                                    },
                                },
                            }
                        },
                    },
                }
            }
        },
    }
}

} // verus!
