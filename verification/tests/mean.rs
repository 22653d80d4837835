use apple_smi::decode::Decoded;
use apple_smi::mean::{mean, Dyadic, Mean, Wide};

fn float(x: f32) -> Decoded {
    Decoded::Float32 { bits: x.to_bits() }
}

fn value(d: &Dyadic) -> f64 {
    d.mantissa as f64 * 2f64.powi(d.exponent)
}

/// The wide integer as a float: its magnitude, limb by limb.
fn wide_as_f64(w: &Wide) -> f64 {
    let negative = w.high < 0;
    let mut limbs = [w.w0, w.w1, w.w2, w.w3];
    let mut high = w.high;
    if negative {
        let mut carry = true;
        for limb in limbs.iter_mut() {
            let (v, c) = (!*limb).overflowing_add(carry as u64);
            *limb = v;
            carry = c;
        }
        high = if carry { -high } else { -high - 1 };
    }
    let mut x = high as f64;
    for limb in limbs.iter().rev() {
        x = x * 18446744073709551616.0 + *limb as f64;
    }
    if negative {
        -x
    } else {
        x
    }
}

/// The sum of a mean in units of one, and its count.
fn exact(m: Option<Mean>) -> (f64, u64) {
    match m {
        Some(Mean::Exact { sum, count }) => (wide_as_f64(&sum) * 2f64.powi(-149), count),
        other => panic!("no exact mean: {:?}", other),
    }
}

fn wide(w0: u64, w1: u64, w2: u64, w3: u64, high: i128) -> Wide {
    Wide { w0, w1, w2, w3, high }
}

#[test]
fn a_float_is_mantissa_times_power_of_two() {
    assert_eq!(float(42.5).dyadic(), Some(Dyadic { mantissa: 0xAA_0000, exponent: -18 }));
    assert_eq!(float(1.0).dyadic(), Some(Dyadic { mantissa: 0x80_0000, exponent: -23 }));
    assert_eq!(float(-1.0).dyadic(), Some(Dyadic { mantissa: -0x80_0000, exponent: -23 }));
    assert_eq!(float(0.0).dyadic(), Some(Dyadic { mantissa: 0, exponent: -149 }));
    assert_eq!(float(-0.0).dyadic(), Some(Dyadic { mantissa: 0, exponent: -149 }));
    assert_eq!(
        float(f32::MAX).dyadic(),
        Some(Dyadic { mantissa: 0xFF_FFFF, exponent: 104 })
    );
    assert_eq!(
        float(f32::MIN_POSITIVE).dyadic(),
        Some(Dyadic { mantissa: 0x80_0000, exponent: -149 })
    );
    assert_eq!(
        Decoded::Float32 { bits: 1 }.dyadic(),
        Some(Dyadic { mantissa: 1, exponent: -149 })
    );
}

#[test]
fn infinities_and_nans_are_no_numbers() {
    assert_eq!(float(f32::INFINITY).dyadic(), None);
    assert_eq!(float(f32::NEG_INFINITY).dyadic(), None);
    assert_eq!(float(f32::NAN).dyadic(), None);
    assert_eq!(Decoded::Float32 { bits: 0x7f80_0001 }.dyadic(), None);
    assert!(float(f32::NAN).is_nan());
    assert!(Decoded::Float32 { bits: 0xff80_0001 }.is_nan());
    assert!(!float(f32::INFINITY).is_nan());
    assert!(!float(1.0).is_nan());
    assert!(!Decoded::Quarters { quarters: 0xffff }.is_nan());
    assert!(float(f32::INFINITY).is_infinity(false));
    assert!(!float(f32::INFINITY).is_infinity(true));
    assert!(float(f32::NEG_INFINITY).is_infinity(true));
    assert!(!float(f32::NEG_INFINITY).is_infinity(false));
    assert!(!float(f32::NAN).is_infinity(false));
    assert!(!float(f32::MAX).is_infinity(false));
    assert!(!Decoded::Fraction256 { parts: -1 }.is_infinity(true));
}

#[test]
fn nan_and_infinity_agree_with_the_float() {
    for bits in [
        0u32, 1, 0x7f7f_ffff, 0x7f80_0000, 0x7f80_0001, 0x7fc0_0000, 0xff80_0000, 0xff80_0001,
        0xffff_ffff, 0x3f80_0000, 0x8000_0000,
    ] {
        let d = Decoded::Float32 { bits };
        let x = f32::from_bits(bits);
        assert_eq!(d.is_nan(), x.is_nan(), "{:#x}", bits);
        assert_eq!(d.is_infinity(false), x == f32::INFINITY, "{:#x}", bits);
        assert_eq!(d.is_infinity(true), x == f32::NEG_INFINITY, "{:#x}", bits);
        assert_eq!(d.dyadic().is_some(), x.is_finite(), "{:#x}", bits);
    }
}

#[test]
fn dyadic_agrees_with_the_float() {
    for bits in [
        0u32, 1, 0x7f_ffff, 0x80_0000, 0x3f80_0000, 0x4228_0000, 0x422a_0000, 0xc2f6_e979,
        0x7f7f_ffff, 0x8000_0001, 0x0012_3456, 0x4049_0fdb,
    ] {
        let d = Decoded::Float32 { bits }.dyadic().unwrap();
        assert_eq!(value(&d), f32::from_bits(bits) as f64, "{:#x}", bits);
    }
}

#[test]
fn fixed_point_readings_are_numbers() {
    assert_eq!(
        Decoded::Quarters { quarters: 400 }.dyadic(),
        Some(Dyadic { mantissa: 400, exponent: -2 })
    );
    assert_eq!(
        Decoded::Fraction256 { parts: -256 }.dyadic(),
        Some(Dyadic { mantissa: -256, exponent: -8 })
    );
}

#[test]
fn mean_of_two_temperatures() {
    // 40 + 44 = 0x1500000 * 2^-18, which is 0x1500000 * 2^131 units of 2^-149:
    // shifted by 3 bits into the limb of weight 2^128.
    let m = mean(&vec![float(40.0), float(44.0)]);
    assert_eq!(m, Some(Mean::Exact { sum: wide(0, 0, 0x150_0000 << 3, 0, 0), count: 2 }));
    let (sum, count) = exact(m);
    assert_eq!(sum / count as f64, 42.0);
}

#[test]
fn mean_of_one_reading_in_each_encoding() {
    assert_eq!(
        mean(&vec![Decoded::Quarters { quarters: 7 }]),
        Some(Mean::Exact { sum: wide(0, 0, 7 << 19, 0, 0), count: 1 })
    );
    assert_eq!(
        mean(&vec![Decoded::Fraction256 { parts: 3 }]),
        Some(Mean::Exact { sum: wide(0, 0, 3 << 13, 0, 0), count: 1 })
    );
    assert_eq!(
        mean(&vec![Decoded::Float32 { bits: 1 }]),
        Some(Mean::Exact { sum: wide(1, 0, 0, 0, 0), count: 1 })
    );
    // The largest float: 0xffffff * 2^104 = 0xffffff * 2^253 units, that is
    // shifted by 61 bits into the limb of weight 2^192.
    assert_eq!(
        mean(&vec![float(f32::MAX)]),
        Some(Mean::Exact { sum: wide(0, 0, 0, 0xff_ffff << 61, 0xff_ffff >> 3), count: 1 })
    );
}

#[test]
fn mean_across_encodings() {
    // 1.5 + 2.25 + (-0.5) = 3.25.
    let m = mean(&vec![
        Decoded::Quarters { quarters: 6 },
        Decoded::Fraction256 { parts: 576 },
        float(-0.5),
    ]);
    assert_eq!(exact(m), (3.25, 3));
}

#[test]
fn a_negative_sum_borrows_through_the_limbs() {
    // -1 = -2^149 units.
    assert_eq!(
        mean(&vec![float(-1.0)]),
        Some(Mean::Exact { sum: wide(0, 0, (1u64 << 21).wrapping_neg(), u64::MAX, -1), count: 1 })
    );
    assert_eq!(exact(mean(&vec![float(-1.0)])), (-1.0, 1));
    assert_eq!(exact(mean(&vec![float(-40.0), float(-44.0)])), (-84.0, 2));
    assert_eq!(exact(mean(&vec![float(-40.0), float(44.0)])), (4.0, 2));
    assert_eq!(exact(mean(&vec![float(40.0), float(-44.0)])), (-4.0, 2));
    assert_eq!(
        mean(&vec![float(2.5), float(-2.5)]),
        Some(Mean::Exact { sum: wide(0, 0, 0, 0, 0), count: 2 })
    );
    assert_eq!(
        mean(&vec![Decoded::Float32 { bits: 0x8000_0001 }]),
        Some(Mean::Exact { sum: wide(u64::MAX, u64::MAX, u64::MAX, u64::MAX, -1), count: 1 })
    );
}

#[test]
fn readings_far_apart_have_an_exact_mean() {
    // What a float sum would lose is kept: 40 and the least positive float.
    let tiny = Decoded::Float32 { bits: 1 };
    let m = mean(&vec![float(40.0), tiny]);
    assert_eq!(m, Some(Mean::Exact { sum: wide(1, 0, 0xA0_0000 << 3, 0, 0), count: 2 }));
    let (sum, count) = exact(m);
    assert_eq!((sum / count as f64) as f32, 20.0);
    // The largest and the least float.
    let m = mean(&vec![float(f32::MAX), tiny, float(-f32::MAX)]);
    assert_eq!(m, Some(Mean::Exact { sum: wide(1, 0, 0, 0, 0), count: 3 }));
    // A sum that a float cannot hold.
    let m = mean(&vec![float(f32::MAX); 4]);
    assert_eq!(m, Some(Mean::Exact { sum: wide(0, 0, 0, 0xff_ffff << 63, 0xff_ffff >> 1), count: 4 }));
    let (sum, count) = exact(m);
    assert_eq!(sum / count as f64, f32::MAX as f64);
}

#[test]
fn the_mean_agrees_with_a_float_sum() {
    let readings = [36.6f32, 41.25, 0.001, 99.5, -3.75, 1e-20, 123456.0, 72.125];
    let decoded: Vec<Decoded> = readings.iter().map(|x| float(*x)).collect();
    let (sum, count) = exact(mean(&decoded));
    let expected: f64 = readings.iter().map(|x| *x as f64).sum();
    assert_eq!(count, 8);
    assert!((sum - expected).abs() <= expected.abs() * 1e-15);
}

#[test]
fn no_mean_without_readings() {
    assert_eq!(mean(&vec![]), None);
}

#[test]
fn infinities_and_nans_make_the_mean_what_a_float_sum_makes_it() {
    let inf = float(f32::INFINITY);
    let ninf = float(f32::NEG_INFINITY);
    let nan = float(f32::NAN);
    assert_eq!(mean(&vec![float(40.0), nan]), Some(Mean::NotANumber));
    assert_eq!(mean(&vec![nan]), Some(Mean::NotANumber));
    assert_eq!(mean(&vec![inf]), Some(Mean::Infinite { negative: false }));
    assert_eq!(mean(&vec![float(-40.0), inf, float(1.0)]), Some(Mean::Infinite { negative: false }));
    assert_eq!(mean(&vec![ninf, float(40.0)]), Some(Mean::Infinite { negative: true }));
    assert_eq!(mean(&vec![inf, ninf]), Some(Mean::NotANumber));
    assert_eq!(mean(&vec![ninf, float(1.0), inf]), Some(Mean::NotANumber));
    assert_eq!(mean(&vec![inf, nan]), Some(Mean::NotANumber));
    assert_eq!(mean(&vec![inf, inf]), Some(Mean::Infinite { negative: false }));
}
