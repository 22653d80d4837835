//! Decoding of sensor payloads: from a type tag and raw bytes to a number.
//!
//! A decoded number is kept exactly: a float as its bit pattern, a
//! fixed-point value as its raw integer together with the divisor that its
//! encoding implies.

use vstd::prelude::*;
use vstd::string::StringSliceAdditionalSpecFns;
use crate::smc::SensorVal;
use crate::text::same_text;

verus! {

/// The binary encodings of numeric sensor values.
#[derive(Clone, Copy, Debug, PartialEq, Eq, Structural)]
pub enum Encoding {
    /// Tag `"flt "`: four bytes, a little-endian IEEE-754 binary32.
    Float32LE,
    /// Tag `"fpe2"`: two bytes, a big-endian unsigned integer counting
    /// quarters.
    FixedPointDiv4BE16,
    /// Tag `"sp78"`: two bytes, a big-endian signed integer counting
    /// 256ths.
    SignedFixedPointDiv256BE16,
    /// Any other tag: the value is not a number this library reads.
    Unrecognized,
}

/// A decoded number.
#[derive(Clone, Copy, Debug, PartialEq, Eq, Structural)]
pub enum Decoded {
    /// The IEEE-754 binary32 value with the bit pattern `bits`.
    Float32 { bits: u32 },
    /// The value `quarters / 4`.
    Quarters { quarters: u16 },
    /// The value `parts / 256`.
    Fraction256 { parts: i16 },
}

/// The encoding that a type tag names.
pub open spec fn encoding_of(tag: Seq<char>) -> Encoding {
    if tag == "flt "@ {
        Encoding::Float32LE
    } else if tag == "fpe2"@ {
        Encoding::FixedPointDiv4BE16
    } else if tag == "sp78"@ {
        Encoding::SignedFixedPointDiv256BE16
    } else {
        Encoding::Unrecognized
    }
}

/// The first four bytes of `b` read as a little-endian 32-bit integer.
pub open spec fn le_u32(b: Seq<u8>) -> u32
    recommends
        b.len() >= 4,
{
    (b[0] as int + b[1] as int * 0x100 + b[2] as int * 0x1_0000 + b[3] as int * 0x100_0000) as u32
}

/// The first four bytes of `b` read as a big-endian 32-bit integer.
pub open spec fn be_u32(b: Seq<u8>) -> u32
    recommends
        b.len() >= 4,
{
    (b[0] as int * 0x100_0000 + b[1] as int * 0x1_0000 + b[2] as int * 0x100 + b[3] as int) as u32
}

/// The first two bytes of `b` read as a big-endian unsigned 16-bit integer.
pub open spec fn be_u16(b: Seq<u8>) -> u16
    recommends
        b.len() >= 2,
{
    (b[0] as int * 0x100 + b[1] as int) as u16
}

/// The first two bytes of `b` read as a big-endian 16-bit integer in two's
/// complement.
pub open spec fn be_i16(b: Seq<u8>) -> i16
    recommends
        b.len() >= 2,
{
    if b[0] >= 0x80 {
        (b[0] as int * 0x100 + b[1] as int - 0x1_0000) as i16
    } else {
        (b[0] as int * 0x100 + b[1] as int) as i16
    }
}

/// The number that `data` holds under `encoding`; none where the encoding
/// is not recognised or the data is too short for it. Bytes past those that
/// the encoding needs are ignored.
pub open spec fn decoded_as(encoding: Encoding, data: Seq<u8>) -> Option<Decoded> {
    match encoding {
        Encoding::Float32LE => if data.len() >= 4 {
            Some(Decoded::Float32 { bits: le_u32(data) })
        } else {
            None
        },
        Encoding::FixedPointDiv4BE16 => if data.len() >= 2 {
            Some(Decoded::Quarters { quarters: be_u16(data) })
        } else {
            None
        },
        Encoding::SignedFixedPointDiv256BE16 => if data.len() >= 2 {
            Some(Decoded::Fraction256 { parts: be_i16(data) })
        } else {
            None
        },
        Encoding::Unrecognized => None,
    }
}

/// The number that `data` holds under the encoding that `tag` names.
pub open spec fn decoded(tag: Seq<char>, data: Seq<u8>) -> Option<Decoded> {
    decoded_as(encoding_of(tag), data)
}

/// The value of a hexadecimal digit given as an ASCII byte: `'0'`-`'9'`,
/// `'A'`-`'F'` or `'a'`-`'f'`.
pub open spec fn hex_value(digit: u8) -> Option<u8> {
    if 0x30 <= digit <= 0x39 {
        Some((digit - 0x30) as u8)
    } else if 0x41 <= digit <= 0x46 {
        Some((digit - 0x41 + 10) as u8)
    } else if 0x61 <= digit <= 0x66 {
        Some((digit - 0x61 + 10) as u8)
    } else {
        None
    }
}

/// The index of the fan whose actual speed is read under `key`: the key has
/// the four bytes `'F'`, a hexadecimal digit, `'A'`, `'c'`, and the digit is
/// the index. Any other key is not a fan-speed key.
pub open spec fn fan_index(key: Seq<u8>) -> Option<u8> {
    if key.len() == 4 && key[0] == 0x46 && key[2] == 0x41 && key[3] == 0x63 {
        hex_value(key[1])
    } else {
        None
    }
}

impl Encoding {
    /// Reads a type tag.
    pub fn from_tag(tag: &str) -> (e: Encoding)
        ensures
            e == encoding_of(tag@),
    {
        if same_text(tag, "flt ") {
            Encoding::Float32LE
        } else if same_text(tag, "fpe2") {
            Encoding::FixedPointDiv4BE16
        } else if same_text(tag, "sp78") {
            Encoding::SignedFixedPointDiv256BE16
        } else {
            Encoding::Unrecognized
        }
    }

    /// Decodes `data` under this encoding.
    pub fn decode(self, data: &[u8]) -> (r: Option<Decoded>)
        ensures
            r == decoded_as(self, data@),
    {
        match self {
            Encoding::Float32LE => {
                if data.len() >= 4 {
                    let b0: u8 = data[0];
                    let b1: u8 = data[1];
                    let b2: u8 = data[2];
                    let b3: u8 = data[3];
                    let bits: u32 = (b0 as u32) | ((b1 as u32) << 8) | ((b2 as u32) << 16) | ((
                    b3 as u32) << 24);
                    assert(bits == (b0 as u32) + (b1 as u32) * 0x100 + (b2 as u32) * 0x1_0000 + (
                    b3 as u32) * 0x100_0000) by (bit_vector)
                        requires
                            bits == (b0 as u32) | ((b1 as u32) << 8) | ((b2 as u32) << 16) | ((
                            b3 as u32) << 24),
                    ;
                    Some(Decoded::Float32 { bits })
                } else {
                    None
                }
            },
            Encoding::FixedPointDiv4BE16 => {
                if data.len() >= 2 {
                    let hi: u16 = data[0] as u16;
                    let lo: u16 = data[1] as u16;
                    Some(Decoded::Quarters { quarters: hi * 256 + lo })
                } else {
                    None
                }
            },
            Encoding::SignedFixedPointDiv256BE16 => {
                if data.len() >= 2 {
                    let hi: i32 = data[0] as i32;
                    let lo: i32 = data[1] as i32;
                    let raw: i32 = if hi >= 0x80 {
                        hi * 256 + lo - 0x1_0000
                    } else {
                        hi * 256 + lo
                    };
                    Some(Decoded::Fraction256 { parts: raw as i16 })
                } else {
                    None
                }
            },
            Encoding::Unrecognized => None,
        }
    }
}

impl Decoded {
    /// Whether the value is zero. A float is zero with either sign.
    pub open spec fn zero(self) -> bool {
        match self {
            Decoded::Float32 { bits } => bits == 0 || bits == 0x8000_0000,
            Decoded::Quarters { quarters } => quarters == 0,
            Decoded::Fraction256 { parts } => parts == 0,
        }
    }

    /// Tests whether the value is zero.
    pub fn is_zero(&self) -> (r: bool)
        ensures
            r == self.zero(),
    {
        match self {
            Decoded::Float32 { bits } => *bits == 0 || *bits == 0x8000_0000,
            Decoded::Quarters { quarters } => *quarters == 0,
            Decoded::Fraction256 { parts } => *parts == 0,
        }
    }
}

/// Decodes `data` under the encoding that `tag` names: `"flt "`, `"fpe2"`
/// or `"sp78"`. Any other tag, or data too short for the encoding, gives no
/// number.
pub fn decode(tag: &str, data: &[u8]) -> (r: Option<Decoded>)
    ensures
        r == decoded(tag@, data@),
{
    Encoding::from_tag(tag).decode(data)
}

/// Decodes a value as read from the service, under the encoding that its
/// type tag names.
pub fn decode_numeric(v: &SensorVal) -> (r: Option<Decoded>)
    ensures
        r == decoded(v.unit@, v.data@),
{
    decode(v.unit.as_str(), v.data.as_slice())
}

/// The index of the fan whose actual speed is read under the key `k`.
pub fn fan_index_from_key(k: &str) -> (r: Option<u8>)
    ensures
        r == fan_index(k.spec_bytes()),
{
    if k.len() != 4 {
        return None;
    }
    let b = k.as_bytes();
    if b[0] != 0x46 || b[2] != 0x41 || b[3] != 0x63 {
        return None;
    }
    let idx: u8 = b[1];
    if 0x30 <= idx && idx <= 0x39 {
        Some(idx - 0x30)
    } else if 0x41 <= idx && idx <= 0x46 {
        Some(10 + (idx - 0x41))
    } else if 0x61 <= idx && idx <= 0x66 {
        Some(10 + (idx - 0x61))
    } else {
        None
    }
}

} // verus!
