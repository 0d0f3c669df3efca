//! A schema-driven binary message codec in the style of Simple Binary
//! Encoding: a fixed message header, fixed-width fields at fixed offsets,
//! count-prefixed repeating groups and length-prefixed variable-length data,
//! all little-endian.
pub mod error;
pub mod wire;
pub mod reader;
pub mod writer;
pub mod header;
pub mod var_data;
pub mod group;
pub mod car;
pub mod car_decoder;
pub mod car_encoder;
pub mod message;
pub mod parse;
pub mod decode;
pub mod round_trip;
pub mod example;
