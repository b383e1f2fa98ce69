//! A minimal, allocation-light contract for converting typed values to and
//! from fixed-size binary representations, together with composable helpers
//! for streaming deserialization and hexadecimal text encoding.
//!
//! A type declares its exact wire size by implementing
//! [`Serializable`]; it thereby gains length-checked slice and stream
//! deserialization ([`DeserializableSlice`]) and hexadecimal parsing
//! ([`ParseHexStr`]) for free, provided its error type implements the
//! relevant capability traits ([`BadLength`], [`InvalidChar`]).

mod display;
mod errors;
mod parse;
mod primitive;
mod serialize;

pub use display::hex_encode_parse;
pub use display::lemma_hex_chars_ascii;
pub use display::lemma_hex_round_trip;
pub use display::lemma_hex_str_round_trip;
pub use display::nibble_char;
pub use display::spec_hex_chars;
pub use display::spec_hex_prefix;
pub use display::to_hex_string;
pub use errors::BadLength;
pub use errors::Error;
pub use errors::InvalidChar;
pub use parse::ParseHexStr;
pub use parse::first_non_hex;
pub use parse::first_non_hex_from;
pub use parse::hex;
pub use parse::hex_byte;
pub use parse::hex_pair_at;
pub use parse::is_hex_digit;
pub use parse::lemma_all_hex;
pub use parse::lemma_single_non_hex;
pub use parse::nibble_value;
pub use parse::spec_hex_decode;
pub use serialize::DeserializableSlice;
pub use serialize::encode_decode;
pub use serialize::Read;
pub use serialize::Serializable;
pub use serialize::Write;
