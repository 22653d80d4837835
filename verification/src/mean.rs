//! The numeric value of a decoded reading, and the exact mean of readings.
//!
//! Every encoding yields a number of the form `mantissa * 2^exponent`, or,
//! for a float, an infinity or a NaN. No exponent lies below -149, so every
//! number is a whole count of units of `2^-149`, and so is every sum of
//! them. The mean of readings is given exactly: as their sum in those units,
//! held in 384 bits, and their count.

use vstd::prelude::*;
use vstd::arithmetic::power2::{
    lemma2_to64, lemma_pow2_adds, lemma_pow2_pos, lemma_pow2_strictly_increases,
    lemma_pow2_unfold, pow2,
};
use crate::decode::Decoded;

verus! {

/// The number `mantissa * 2^exponent`.
#[derive(Clone, Copy, Debug, PartialEq, Eq, Structural)]
pub struct Dyadic {
    pub mantissa: i128,
    pub exponent: i32,
}

/// A wide integer: the number
/// `high * 2^256 + w3 * 2^192 + w2 * 2^128 + w1 * 2^64 + w0`.
#[derive(Clone, Copy, Debug, PartialEq, Eq, Structural)]
pub struct Wide {
    pub w0: u64,
    pub w1: u64,
    pub w2: u64,
    pub w3: u64,
    pub high: i128,
}

/// The mean of readings.
#[derive(Clone, Copy, Debug, PartialEq, Eq, Structural)]
pub enum Mean {
    /// Every reading is a number: the mean is `sum * 2^-149 / count`.
    Exact { sum: Wide, count: u64 },
    /// A reading is an infinity, none is the other infinity or a NaN: the
    /// mean is that infinity.
    Infinite { negative: bool },
    /// A reading is a NaN, or both infinities occur: the mean is no number.
    NotANumber,
}

/// The mathematical content of a [`Mean`].
pub enum MeanValue {
    Exact { sum: int, count: nat },
    Infinite { negative: bool },
    NotANumber,
}

/// The number that a reading is. A float is the number that IEEE-754
/// binary32 gives its bit pattern: with the sign in the top bit, the
/// exponent field `e` in the next eight and the fraction `f` in the low 23,
/// it is `f * 2^-149` where `e` is 0 and `(2^23 + f) * 2^(e - 150)`
/// otherwise, and no number (an infinity or a NaN) where `e` is 255.
pub open spec fn dyadic_of(d: Decoded) -> Option<Dyadic> {
    match d {
        Decoded::Float32 { bits } => {
            let e = bits / 0x80_0000 % 0x100;
            let f = bits % 0x80_0000;
            let m = if e == 0 {
                f as int
            } else {
                f + 0x80_0000
            };
            if e == 255 {
                None
            } else {
                Some(
                    Dyadic {
                        mantissa: if bits >= 0x8000_0000 {
                            (-m) as i128
                        } else {
                            m as i128
                        },
                        exponent: if e == 0 {
                            -149i32
                        } else {
                            (e - 150) as i32
                        },
                    },
                )
            }
        },
        Decoded::Quarters { quarters } => Some(
            Dyadic { mantissa: quarters as i128, exponent: -2i32 },
        ),
        Decoded::Fraction256 { parts } => Some(Dyadic { mantissa: parts as i128, exponent: -8i32 }),
    }
}

/// Whether a reading is a NaN: a float whose exponent field is 255 and
/// whose fraction is not 0.
pub open spec fn is_nan(d: Decoded) -> bool {
    d matches Decoded::Float32 { bits } && bits / 0x80_0000 % 0x100 == 255 && bits % 0x80_0000 != 0
}

/// Whether a reading is the infinity of the given sign: a float whose
/// exponent field is 255 and whose fraction is 0.
pub open spec fn is_infinity(d: Decoded, negative: bool) -> bool {
    d matches Decoded::Float32 { bits } && bits / 0x80_0000 % 0x100 == 255 && bits % 0x80_0000 == 0
        && (bits >= 0x8000_0000) == negative
}

/// Whether every reading is a number.
pub open spec fn all_numbers(readings: Seq<Decoded>) -> bool {
    forall|i: int| 0 <= i < readings.len() ==> dyadic_of(#[trigger] readings[i]) is Some
}

/// Whether a reading among the first `upto` is a NaN.
pub open spec fn nan_before(readings: Seq<Decoded>, upto: int) -> bool {
    exists|i: int| 0 <= i < upto && i < readings.len() && is_nan(#[trigger] readings[i])
}

/// Whether a reading among the first `upto` is the infinity of the given
/// sign.
pub open spec fn infinity_before(readings: Seq<Decoded>, negative: bool, upto: int) -> bool {
    exists|i: int|
        0 <= i < upto && i < readings.len() && is_infinity(#[trigger] readings[i], negative)
}

/// A reading in units of `2^-149`; 0 for a reading that is no number.
pub open spec fn units_of(d: Decoded) -> int {
    match dyadic_of(d) {
        Some(x) => x.mantissa * pow2((x.exponent + 149) as nat),
        None => 0,
    }
}

/// The sum of the readings that are numbers, in units of `2^-149`.
pub open spec fn total(readings: Seq<Decoded>) -> int
    decreases readings.len(),
{
    if readings.len() == 0 {
        0
    } else {
        total(readings.drop_last()) + units_of(readings.last())
    }
}

/// The mean of the readings. There is none exactly where there is no
/// reading. Where every reading is a number it is their sum and their
/// count; an infinity among the readings makes it that infinity, and a NaN,
/// or both infinities, make it no number.
pub open spec fn mean_of(readings: Seq<Decoded>) -> Option<MeanValue> {
    let n = readings.len() as int;
    if readings.len() == 0 {
        None
    } else if nan_before(readings, n) || (infinity_before(readings, false, n) && infinity_before(
        readings,
        true,
        n,
    )) {
        Some(MeanValue::NotANumber)
    } else if infinity_before(readings, false, n) {
        Some(MeanValue::Infinite { negative: false })
    } else if infinity_before(readings, true, n) {
        Some(MeanValue::Infinite { negative: true })
    } else {
        Some(MeanValue::Exact { sum: total(readings), count: readings.len() })
    }
}

/// The mathematical content of a mean that may be absent.
pub open spec fn mean_view(m: Option<Mean>) -> Option<MeanValue> {
    match m {
        Some(x) => Some(x@),
        None => None,
    }
}

/// A bound on what one reading adds to the sum: `2^280`.
pub open spec fn term_limit() -> int {
    0x100_0000_0000_0000_0000_0000_0000_0000_0000_0000_0000_0000_0000_0000_0000_0000_0000_0000int
}

/// The weight of limb `j` of a wide integer: `2^(64 * j)`.
pub open spec fn weight_of(j: u32) -> int {
    if j == 0 {
        1
    } else if j == 1 {
        0x1_0000_0000_0000_0000
    } else if j == 2 {
        0x1_0000_0000_0000_0000_0000_0000_0000_0000int
    } else {
        0x1_0000_0000_0000_0000_0000_0000_0000_0000_0000_0000_0000_0000int
    }
}

impl Wide {
    /// The integer that the limbs spell.
    pub open spec fn value(self) -> int {
        self.w0 + self.w1 * 0x1_0000_0000_0000_0000 + self.w2
            * 0x1_0000_0000_0000_0000_0000_0000_0000_0000int + self.w3
            * 0x1_0000_0000_0000_0000_0000_0000_0000_0000_0000_0000_0000_0000int + self.high
            * 0x1_0000_0000_0000_0000_0000_0000_0000_0000_0000_0000_0000_0000_0000_0000_0000_0000int
    }

    /// Adds `t * 2^(64 * j)`.
    fn add_shifted(self, t: i128, j: u32) -> (r: Wide)
        requires
            -0x100_0000_0000_0000_0000_0000 < t < 0x100_0000_0000_0000_0000_0000,
            j <= 3,
            -0x1_0000_0000_0000_0000_0000_0000 < self.high < 0x1_0000_0000_0000_0000_0000_0000,
        ensures
            r.value() == self.value() + t * weight_of(j),
    {
        let a0: i128 = if j == 0 {
            t
        } else {
            0
        };
        let a1: i128 = if j == 1 {
            t
        } else {
            0
        };
        let a2: i128 = if j == 2 {
            t
        } else {
            0
        };
        let a3: i128 = if j == 3 {
            t
        } else {
            0
        };
        let (l0, c0) = split(self.w0 as i128 + a0);
        let (l1, c1) = split(self.w1 as i128 + a1 + c0);
        let (l2, c2) = split(self.w2 as i128 + a2 + c1);
        let (l3, c3) = split(self.w3 as i128 + a3 + c2);
        Wide { w0: l0, w1: l1, w2: l2, w3: l3, high: self.high + c3 }
    }
}

impl View for Mean {
    type V = MeanValue;

    open spec fn view(&self) -> MeanValue {
        match self {
            Mean::Exact { sum, count } => MeanValue::Exact {
                sum: sum.value(),
                count: *count as nat,
            },
            Mean::Infinite { negative } => MeanValue::Infinite { negative: *negative },
            Mean::NotANumber => MeanValue::NotANumber,
        }
    }
}

/// Splits `x` into its low 64 bits and what is left above them.
fn split(x: i128) -> (r: (u64, i128))
    requires
        -0x1000_0000_0000_0000_0000_0000_0000 < x < 0x1000_0000_0000_0000_0000_0000_0000,
    ensures
        x == r.0 + r.1 * 0x1_0000_0000_0000_0000,
{
    if x >= 0 {
        ((x % 0x1_0000_0000_0000_0000) as u64, x / 0x1_0000_0000_0000_0000)
    } else {
        let y: i128 = -(x + 1);
        let q: i128 = -(y / 0x1_0000_0000_0000_0000) - 1;
        ((x - q * 0x1_0000_0000_0000_0000) as u64, q)
    }
}

impl Decoded {
    /// The number that the reading is: see [`dyadic_of`].
    pub fn dyadic(&self) -> (r: Option<Dyadic>)
        ensures
            r == dyadic_of(*self),
    {
        match self {
            Decoded::Float32 { bits } => {
                let bits: u32 = *bits;
                let e: u32 = (bits >> 23) & 0xff;
                let f: u32 = bits & 0x7f_ffff;
                assert(e == bits / 0x80_0000 % 0x100 && f == bits % 0x80_0000) by (bit_vector)
                    requires
                        e == (bits >> 23) & 0xff,
                        f == bits & 0x7f_ffff,
                ;
                if e == 255 {
                    None
                } else {
                    let m: i128 = if e == 0 {
                        f as i128
                    } else {
                        f as i128 + 0x80_0000
                    };
                    let x: i32 = if e == 0 {
                        -149
                    } else {
                        e as i32 - 150
                    };
                    Some(
                        Dyadic {
                            mantissa: if bits >= 0x8000_0000 {
                                -m
                            } else {
                                m
                            },
                            exponent: x,
                        },
                    )
                }
            },
            Decoded::Quarters { quarters } => Some(
                Dyadic { mantissa: *quarters as i128, exponent: -2 },
            ),
            Decoded::Fraction256 { parts } => Some(Dyadic { mantissa: *parts as i128, exponent: -8 }),
        }
    }

    /// Tests whether the reading is a NaN.
    pub fn is_nan(&self) -> (r: bool)
        ensures
            r == is_nan(*self),
    {
        match self {
            Decoded::Float32 { bits } => {
                let bits: u32 = *bits;
                let e: u32 = (bits >> 23) & 0xff;
                let f: u32 = bits & 0x7f_ffff;
                assert(e == bits / 0x80_0000 % 0x100 && f == bits % 0x80_0000) by (bit_vector)
                    requires
                        e == (bits >> 23) & 0xff,
                        f == bits & 0x7f_ffff,
                ;
                e == 255 && f != 0
            },
            _ => false,
        }
    }

    /// Tests whether the reading is the infinity of the given sign.
    pub fn is_infinity(&self, negative: bool) -> (r: bool)
        ensures
            r == is_infinity(*self, negative),
    {
        match self {
            Decoded::Float32 { bits } => {
                let bits: u32 = *bits;
                let e: u32 = (bits >> 23) & 0xff;
                let f: u32 = bits & 0x7f_ffff;
                assert(e == bits / 0x80_0000 % 0x100 && f == bits % 0x80_0000) by (bit_vector)
                    requires
                        e == (bits >> 23) & 0xff,
                        f == bits & 0x7f_ffff,
                ;
                e == 255 && f == 0 && (bits >= 0x8000_0000) == negative
            },
            _ => false,
        }
    }
}

proof fn lemma_pow2_below_64(k: nat)
    requires
        k < 64,
    ensures
        0 < pow2(k) < 0x1_0000_0000_0000_0000,
{
    lemma2_to64();
    lemma_pow2_pos(k);
    lemma_pow2_strictly_increases(k, 64);
}

/// Two to the power `k`.
fn two_to_the(k: u32) -> (p: i128)
    requires
        k < 64,
    ensures
        p == pow2(k as nat),
{
    let mut p: i128 = 1;
    let mut j: u32 = 0;
    proof {
        lemma2_to64();
    }
    while j < k
        invariant
            j <= k < 64,
            p == pow2(j as nat),
        decreases k - j,
    {
        proof {
            lemma_pow2_below_64(j as nat);
            lemma_pow2_unfold((j + 1) as nat);
        }
        p = p * 2;
        j += 1;
    }
    p
}

/// Two to the power `k` is two to the power `k % 64` times the weight of
/// limb `k / 64`.
proof fn lemma_pow2_by_limbs(k: nat)
    requires
        k < 256,
    ensures
        pow2(k) == pow2(k % 64) * weight_of((k / 64) as u32),
{
    let s = k % 64;
    let j = k / 64;
    lemma2_to64();
    lemma_pow2_adds(64, 64);
    lemma_pow2_adds(128, 64);
    lemma_pow2_adds(s, (64 * j) as nat);
    assert(pow2(128) == 0x1_0000_0000_0000_0000_0000_0000_0000_0000int);
    assert(pow2(192) == 0x1_0000_0000_0000_0000_0000_0000_0000_0000_0000_0000_0000_0000int);
    assert(pow2((64 * j) as nat) == weight_of(j as u32));
}

/// The exact mean of the readings: see [`mean_of`].
pub fn mean(readings: &Vec<Decoded>) -> (r: Option<Mean>)
    ensures
        mean_view(r) == mean_of(readings@),
{
    let n = readings.len();
    if n == 0 {
        return None;
    }
    let mut sum = Wide { w0: 0, w1: 0, w2: 0, w3: 0, high: 0 };
    let mut nan = false;
    let mut plus = false;
    let mut minus = false;
    let mut i: usize = 0;
    while i < n
        invariant
            i <= n == readings@.len(),
            nan == nan_before(readings@, i as int),
            plus == infinity_before(readings@, false, i as int),
            minus == infinity_before(readings@, true, i as int),
            sum.value() == total(readings@.take(i as int)),
            -i * term_limit()
                <= sum.value() <= i
                * term_limit(),
        decreases n - i,
    {
        let ghost before = readings@.take(i as int);
        let ghost upto = readings@.take(i as int + 1);
        proof {
            assert(upto.drop_last() =~= before);
            assert(upto.last() == readings@[i as int]);
        }
        match readings[i].dyadic() {
            Some(d) => {
                let k: u32 = (d.exponent + 149) as u32;
                let j: u32 = k / 64;
                let s: u32 = k % 64;
                let p: i128 = two_to_the(s);
                proof {
                    lemma_pow2_below_64(s as nat);
                    lemma_pow2_by_limbs(k as nat);
                    assert(-0x100_0000_0000_0000_0000_0000 < d.mantissa * p
                        < 0x100_0000_0000_0000_0000_0000) by (nonlinear_arith)
                        requires
                            -0x100_0000 < d.mantissa < 0x100_0000,
                            0 < p < 0x1_0000_0000_0000_0000,
                    ;
                }
                let t: i128 = d.mantissa * p;
                proof {
                    let w = weight_of(j);
                    assert(d.mantissa * pow2(k as nat) == t * w) by (nonlinear_arith)
                        requires
                            pow2(k as nat) == p * w,
                            t == d.mantissa * p,
                    ;
                    assert(-term_limit()
                        <= t * w
                        <= term_limit())
                        by (nonlinear_arith)
                        requires
                            -0x100_0000_0000_0000_0000_0000 < t < 0x100_0000_0000_0000_0000_0000,
                            0 < w
                                <= 0x1_0000_0000_0000_0000_0000_0000_0000_0000_0000_0000_0000_0000int,
                    ;
                }
                sum = sum.add_shifted(t, j);
            },
            None => {
                if readings[i].is_nan() {
                    nan = true;
                } else if readings[i].is_infinity(true) {
                    minus = true;
                } else {
                    plus = true;
                }
            },
        }
        i += 1;
    }
    proof {
        assert(readings@.take(n as int) =~= readings@);
    }
    if nan || (plus && minus) {
        Some(Mean::NotANumber)
    } else if plus {
        Some(Mean::Infinite { negative: false })
    } else if minus {
        Some(Mean::Infinite { negative: true })
    } else {
        Some(Mean::Exact { sum, count: n as u64 })
    }
}

/// There is a mean wherever there is a reading, and it is the exact one
/// wherever the readings are numbers: the sum of the readings and their
/// count.
pub proof fn law_mean_of_readings(readings: Seq<Decoded>)
    ensures
        mean_of(readings) is None <==> readings.len() == 0,
        readings.len() > 0 && all_numbers(readings) ==> mean_of(readings) == Some(
            MeanValue::Exact { sum: total(readings), count: readings.len() },
        ),
        mean_of(readings) matches Some(MeanValue::Exact { .. }) ==> all_numbers(readings),
{
    let n = readings.len() as int;
    if readings.len() > 0 && !all_numbers(readings) {
        let i = choose|i: int| 0 <= i < readings.len() && dyadic_of(#[trigger] readings[i]) is None;
        assert(is_nan(readings[i]) || is_infinity(readings[i], false) || is_infinity(
            readings[i],
            true,
        ));
    }
}

/// A reading is zero exactly where it is the number zero: the readings that
/// stand for an absent sensor are those whose value is 0, whatever the
/// encoding and, for a float, whatever the sign.
pub proof fn law_zero_is_the_number_zero(d: Decoded)
    ensures
        d.zero() <==> (dyadic_of(d) matches Some(x) && x.mantissa == 0),
{
    match d {
        Decoded::Float32 { bits } => {
            assert((bits == 0 || bits == 0x8000_0000) <==> (bits / 0x80_0000 % 0x100 == 0 && bits
                % 0x80_0000 == 0)) by (bit_vector);
        },
        _ => {},
    }
}

} // verus!
