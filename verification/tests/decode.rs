use apple_smi::decode::{decode, decode_numeric, fan_index_from_key, Decoded, Encoding};
use apple_smi::fourcc::fourcc_str_to_u32;
use apple_smi::mean::Dyadic;
use apple_smi::fourcc::fourcc_text;
use apple_smi::smc::SensorVal;

fn as_f32(d: Decoded) -> f32 {
    match d {
        Decoded::Float32 { bits } => f32::from_bits(bits),
        Decoded::Quarters { quarters } => quarters as f32 / 4.0,
        Decoded::Fraction256 { parts } => parts as f32 / 256.0,
    }
}

#[test]
fn decode_float_little_endian() {
    let d = decode("flt ", &42.5f32.to_le_bytes()).unwrap();
    assert_eq!(d, Decoded::Float32 { bits: 42.5f32.to_bits() });
    // 42.5 = 0xAA0000 / 2^18.
    assert_eq!(d.dyadic(), Some(Dyadic { mantissa: 0xAA_0000, exponent: -18 }));
    assert_eq!(as_f32(d), 42.5);
}

#[test]
fn decode_float_is_not_big_endian() {
    let d = decode("flt ", &[0x01, 0x02, 0x03, 0x04]).unwrap();
    assert_eq!(d, Decoded::Float32 { bits: 0x0403_0201 });
}

#[test]
fn decode_fpe2_divides_by_four() {
    let d = decode("fpe2", &400u16.to_be_bytes()).unwrap();
    assert_eq!(d, Decoded::Quarters { quarters: 400 });
    assert_eq!(d.dyadic(), Some(Dyadic { mantissa: 400, exponent: -2 }));
    assert_eq!(as_f32(d), 100.0);
}

#[test]
fn decode_sp78_is_signed() {
    let d = decode("sp78", &(-256i16).to_be_bytes()).unwrap();
    assert_eq!(d, Decoded::Fraction256 { parts: -256 });
    assert_eq!(d.dyadic(), Some(Dyadic { mantissa: -256, exponent: -8 }));
    assert_eq!(as_f32(d), -1.0);
}

#[test]
fn decode_sp78_extremes() {
    assert_eq!(decode("sp78", &[0x80, 0x00]), Some(Decoded::Fraction256 { parts: i16::MIN }));
    assert_eq!(decode("sp78", &[0x7f, 0xff]), Some(Decoded::Fraction256 { parts: i16::MAX }));
    assert_eq!(decode("sp78", &[0xff, 0xff]), Some(Decoded::Fraction256 { parts: -1 }));
    assert_eq!(decode("fpe2", &[0xff, 0xff]), Some(Decoded::Quarters { quarters: u16::MAX }));
}

#[test]
fn decode_unknown_tag_is_absent() {
    assert_eq!(decode("ui8 ", &[1, 2, 3, 4]), None);
    assert_eq!(decode("", &[1, 2, 3, 4]), None);
    assert_eq!(decode("flt", &[1, 2, 3, 4]), None);
    assert_eq!(decode("FLT ", &[1, 2, 3, 4]), None);
}

#[test]
fn decode_short_data_is_absent() {
    assert_eq!(decode("flt ", &[1, 2, 3]), None);
    assert_eq!(decode("fpe2", &[1]), None);
    assert_eq!(decode("sp78", &[]), None);
}

#[test]
fn decode_ignores_trailing_bytes() {
    assert_eq!(decode("fpe2", &[0x01, 0x90, 0xaa, 0xbb]), Some(Decoded::Quarters { quarters: 400 }));
    let mut bytes = 1.0f32.to_le_bytes().to_vec();
    bytes.push(9);
    assert_eq!(decode("flt ", &bytes), Some(Decoded::Float32 { bits: 1.0f32.to_bits() }));
}

#[test]
fn decode_numeric_reads_the_value_tag() {
    let v = SensorVal { name: "F0Ac".to_string(), unit: "fpe2".to_string(), data: vec![0x12, 0x34] };
    assert_eq!(decode_numeric(&v), Some(Decoded::Quarters { quarters: 0x1234 }));
    let w = SensorVal { name: "F0Ac".to_string(), unit: "ch8*".to_string(), data: vec![0x12, 0x34] };
    assert_eq!(decode_numeric(&w), None);
}

#[test]
fn encoding_from_tag() {
    assert_eq!(Encoding::from_tag("flt "), Encoding::Float32LE);
    assert_eq!(Encoding::from_tag("fpe2"), Encoding::FixedPointDiv4BE16);
    assert_eq!(Encoding::from_tag("sp78"), Encoding::SignedFixedPointDiv256BE16);
    assert_eq!(Encoding::from_tag("sp87"), Encoding::Unrecognized);
    assert_eq!(Encoding::Unrecognized.decode(&[0; 8]), None);
}

#[test]
fn zero_is_zero_in_every_encoding() {
    assert!(Decoded::Float32 { bits: 0.0f32.to_bits() }.is_zero());
    assert!(Decoded::Float32 { bits: (-0.0f32).to_bits() }.is_zero());
    assert!(!Decoded::Float32 { bits: f32::NAN.to_bits() }.is_zero());
    assert!(!Decoded::Float32 { bits: 1 }.is_zero());
    assert!(Decoded::Quarters { quarters: 0 }.is_zero());
    assert!(!Decoded::Quarters { quarters: 1 }.is_zero());
    assert!(Decoded::Fraction256 { parts: 0 }.is_zero());
    assert!(!Decoded::Fraction256 { parts: -1 }.is_zero());
}

#[test]
fn zero_test_agrees_with_float_comparison() {
    for bits in [0u32, 0x8000_0000, 1, 0x8000_0001, 0x7f80_0000, 0x7fc0_0000, 0x3f80_0000] {
        assert_eq!(Decoded::Float32 { bits }.is_zero(), f32::from_bits(bits) == 0.0);
    }
}

#[test]
fn fan_index_of_keys() {
    assert_eq!(fan_index_from_key("F0Ac"), Some(0));
    assert_eq!(fan_index_from_key("F9Ac"), Some(9));
    assert_eq!(fan_index_from_key("FAAc"), Some(10));
    assert_eq!(fan_index_from_key("FFAc"), Some(15));
    assert_eq!(fan_index_from_key("FaAc"), Some(10));
    assert_eq!(fan_index_from_key("FfAc"), Some(15));
    assert_eq!(fan_index_from_key("XXXX"), None);
}

#[test]
fn fan_index_rejects_near_misses() {
    assert_eq!(fan_index_from_key("FGAc"), None);
    assert_eq!(fan_index_from_key("F/Ac"), None);
    assert_eq!(fan_index_from_key("F:Ac"), None);
    assert_eq!(fan_index_from_key("F@Ac"), None);
    assert_eq!(fan_index_from_key("F`Ac"), None);
    assert_eq!(fan_index_from_key("FgAc"), None);
    assert_eq!(fan_index_from_key("F0Mn"), None);
    assert_eq!(fan_index_from_key("F0AC"), None);
    assert_eq!(fan_index_from_key("f0Ac"), None);
    assert_eq!(fan_index_from_key("F0A"), None);
    assert_eq!(fan_index_from_key("F0Acc"), None);
    assert_eq!(fan_index_from_key(""), None);
    assert_eq!(fan_index_from_key("F\u{e9}c"), None);
}

#[test]
fn fourcc_folds_big_endian() {
    assert_eq!(fourcc_str_to_u32("flt "), 0x666C_7420);
    assert_eq!(fourcc_str_to_u32("#KEY"), 0x234B_4559);
    assert_eq!(fourcc_str_to_u32(""), 0);
    assert_eq!(fourcc_str_to_u32("A"), 0x41);
    assert_eq!(fourcc_str_to_u32("ABCDE"), 0x4243_4445);
}

#[test]
fn fourcc_text_spells_the_code() {
    assert_eq!(fourcc_text(0x666C_7420), Some("flt ".to_string()));
    assert_eq!(fourcc_text(0x234B_4559), Some("#KEY".to_string()));
    assert_eq!(fourcc_text(0), Some("\0\0\0\0".to_string()));
    assert_eq!(fourcc_text(0x41C3_A942), Some("A\u{e9}B".to_string()));
}

#[test]
fn fourcc_text_refuses_bytes_that_are_not_utf8() {
    assert_eq!(fourcc_text(0xFF00_0000), None);
    assert_eq!(fourcc_text(0x4141_41C3), None);
    assert_eq!(fourcc_text(0x8041_4141), None);
    assert_eq!(fourcc_text(0xEDA0_8041), None);
}

#[test]
fn fourcc_round_trip() {
    for key in ["Tg0D", "F0Ac", "#KEY", "flt ", "sp78"] {
        assert_eq!(fourcc_text(fourcc_str_to_u32(key)), Some(key.to_string()));
    }
}
