//! Geographic positions and their tolerance-based equality.
//!
//! A position is a latitude/longitude pair of IEEE single-precision
//! coordinates, held here as their raw bit patterns. Two positions are the
//! same cache key exactly when both coordinates are within machine epsilon
//! (`2^-23`) of each other. The comparison is carried out exactly, in
//! integer arithmetic, on the values the bit patterns denote: every finite
//! single-precision value is an integer multiple of `2^-149`, so a value
//! scaled by `2^149` is an integer and the epsilon test needs no rounding.
//! (A floating-point subtraction would round the difference first and can
//! misjudge a pair whose true difference straddles the epsilon boundary;
//! the comparison here decides by the true difference.)

use vstd::prelude::*;
use vstd::arithmetic::power2::{pow2, lemma2_to64, lemma2_to64_rest, lemma_pow2_adds, lemma_pow2_pos, lemma_pow2_strictly_increases, lemma_pow2_unfold};
use vstd::arithmetic::mul::{lemma_mul_inequality, lemma_mul_is_distributive_sub_other_way, lemma_mul_is_distributive_add_other_way, lemma_mul_upper_bound};
use vstd::math::abs;

verus! {

/// Sign field of a single-precision bit pattern: 0 (positive) or 1 (negative).
pub open spec fn sign_field(bits: u32) -> int {
    bits as int / 0x8000_0000
}

/// Biased exponent field: 8 bits.
pub open spec fn exp_field(bits: u32) -> int {
    (bits as int / 0x80_0000) % 0x100
}

/// Fraction field: low 23 bits.
pub open spec fn frac_field(bits: u32) -> int {
    bits as int % 0x80_0000
}

/// Magnitude of the encoded value, scaled by `2^149` so that it is an
/// integer: `frac` for subnormals, `(2^23 + frac) * 2^(exp - 1)` otherwise.
/// (An exponent field of 255 encodes an infinity or NaN; the formula extends
/// to it as a value beyond every finite one, which keeps the comparison
/// total. Coordinates are always finite.)
pub open spec fn scaled_magnitude(bits: u32) -> int {
    if exp_field(bits) == 0 {
        frac_field(bits)
    } else {
        (frac_field(bits) + 0x80_0000) * pow2((exp_field(bits) - 1) as nat)
    }
}

/// The encoded coordinate value, scaled by `2^149`.
pub open spec fn scaled_value(bits: u32) -> int {
    if sign_field(bits) == 1 {
        -scaled_magnitude(bits)
    } else {
        scaled_magnitude(bits)
    }
}

/// Machine epsilon for single precision, `2^-23`, scaled by `2^149`.
pub open spec fn scaled_epsilon() -> int {
    pow2(126) as int
}

/// Two coordinates are close when their values differ by at most epsilon.
pub open spec fn coord_close(a: u32, b: u32) -> bool {
    abs(scaled_value(a) - scaled_value(b)) <= scaled_epsilon()
}

/// A geographic coordinate pair, stored as the bit patterns of its
/// single-precision latitude and longitude. Positions come from a fixed
/// catalog, are immutable, and serve as cache keys.
#[derive(Clone, Copy, PartialEq, Eq, Structural, Debug, Hash)]
pub struct Pos {
    pub lat_bits: u32,
    pub lon_bits: u32,
}

/// The cache-key equivalence: both coordinates within epsilon.
pub open spec fn pos_close(a: Pos, b: Pos) -> bool {
    coord_close(a.lat_bits, b.lat_bits) && coord_close(a.lon_bits, b.lon_bits)
}

impl Pos {
    /// A position from raw coordinate bit patterns.
    pub fn new(lat_bits: u32, lon_bits: u32) -> (r: Pos)
        ensures
            r == (Pos { lat_bits, lon_bits }),
    {
        Pos { lat_bits, lon_bits }
    }

    /// The raw latitude and longitude bit patterns.
    pub fn as_bits(&self) -> (r: (u32, u32))
        ensures
            r == (self.lat_bits, self.lon_bits),
    {
        (self.lat_bits, self.lon_bits)
    }

    /// Tolerance equality: do `self` and `other` name the same cache key?
    pub fn close_to(&self, other: &Pos) -> (r: bool)
        ensures
            r == pos_close(*self, *other),
    {
        coords_close(self.lat_bits, other.lat_bits) && coords_close(self.lon_bits, other.lon_bits)
    }
}

/// Closeness is reflexive: a position is always its own cache key.
pub proof fn lemma_pos_close_reflexive(a: Pos)
    ensures
        pos_close(a, a),
{
    lemma_pow2_pos(126);
}

/// Closeness is symmetric: either position of a close pair finds the other.
pub proof fn lemma_pos_close_symmetric(a: Pos, b: Pos)
    ensures
        pos_close(a, b) == pos_close(b, a),
{
}

/// Numeric values of the powers of two the comparator reasons with.
proof fn lemma_pow2_values()
    ensures
        pow2(0) == 1,
        pow2(23) == 0x80_0000,
        pow2(24) == 0x100_0000,
        pow2(103) == 0x80_0000_0000_0000_0000_0000_0000,
        pow2(104) == 0x100_0000_0000_0000_0000_0000_0000,
        pow2(126) == 0x4000_0000_0000_0000_0000_0000_0000_0000,
        pow2(127) == 0x8000_0000_0000_0000_0000_0000_0000_0000,
        pow2(128) == 0x1_0000_0000_0000_0000_0000_0000_0000_0000,
{
    lemma2_to64();
    lemma2_to64_rest();
    lemma_pow2_adds(63, 40);
    lemma_pow2_adds(63, 41);
    lemma_pow2_adds(63, 63);
    lemma_pow2_adds(126, 1);
    lemma_pow2_adds(127, 1);
}

/// `2^e` as an exec value.
fn pow2_u128(e: u32) -> (r: u128)
    requires
        e <= 127,
    ensures
        r == pow2(e as nat),
{
    let mut r: u128 = 1;
    let mut i: u32 = 0;
    proof {
        lemma2_to64();
        lemma_pow2_values();
    }
    while i < e
        invariant
            i <= e,
            e <= 127,
            r == pow2(i as nat),
            pow2(127) == 0x8000_0000_0000_0000_0000_0000_0000_0000,
        decreases e - i,
    {
        proof {
            lemma_pow2_unfold((i + 1) as nat);
            if ((i + 1) as nat) < 127 {
                lemma_pow2_strictly_increases((i + 1) as nat, 127);
            }
        }
        r = r * 2;
        i = i + 1;
    }
    r
}

/// The sign, significand and scale of a coordinate's value: the value
/// scaled by `2^149` is `(-1)^sign * m * 2^e` with `m < 2^24`, `e <= 254`.
fn decode(bits: u32) -> (r: (bool, u32, u32))
    ensures
        ({
            let (neg, m, e) = r;
            &&& m < 0x100_0000
            &&& e <= 254
            &&& scaled_magnitude(bits) == m * pow2(e as nat)
            &&& (neg <==> sign_field(bits) == 1)
            &&& (e > 0 ==> m >= 0x80_0000)
        }),
{
    proof {
        lemma2_to64();
    }
    let neg = bits / 0x8000_0000 == 1;
    let e = (bits / 0x80_0000) % 0x100;
    let m = bits % 0x80_0000;
    if e == 0 {
        (neg, m, 0)
    } else {
        (neg, m + 0x80_0000, e - 1)
    }
}

/// Exact epsilon comparison of two coordinates, on their bit patterns.
///
/// Decides `|value(a) - value(b)| <= 2^-23` with the values read exactly;
/// all arithmetic is integer arithmetic on the scaled representation.
pub fn coords_close(a: u32, b: u32) -> (r: bool)
    ensures
        r == coord_close(a, b),
{
    proof {
        lemma_pow2_values();
    }
    let (na, ma, ea) = decode(a);
    let (nb, mb, eb) = decode(b);
    if ma == 0 && mb == 0 {
        // Both values are zero (of either sign): the difference is zero.
        return true;
    }
    if na == nb || ma == 0 || mb == 0 {
        // The magnitudes subtract: |va - vb| = |mag(a) - mag(b)|.
        // (A zero coordinate subtracts the same way whatever its sign.)
        let (mhi, ehi, mlo, elo) = if ea >= eb {
            (ma, ea, mb, eb)
        } else {
            (mb, eb, ma, ea)
        };
        proof {
            lemma_subtract_shape(a, b, mhi, ehi, mlo, elo);
        }
        let k = ehi - elo;
        if k > 104 {
            // The larger magnitude is of a normal value and dwarfs the
            // smaller: mhi * 2^k >= 2^23 * 2^105 = 2^128.
            proof {
                lemma_pow2_adds(23, k as nat);
                if (23 + k as nat) > 128 {
                    lemma_pow2_strictly_increases(128, 23 + k as nat);
                }
                lemma_mul_inequality(0x80_0000, mhi as int, pow2(k as nat) as int);
                lemma_pow2_pos(elo as nat);
                lemma_mul_inequality(1, pow2(elo as nat) as int, mhi * pow2(k as nat) - mlo);
                vstd::arithmetic::mul::lemma_mul_is_commutative(
                    pow2(elo as nat) as int,
                    mhi * pow2(k as nat) - mlo,
                );
            }
            false
        } else {
            let p2k = pow2_u128(k);
            proof {
                if (k as nat) < 104 {
                    lemma_pow2_strictly_increases(k as nat, 104);
                }
                lemma_mul_upper_bound(ma as int, 0xff_ffff, pow2(k as nat) as int, pow2(104) as int);
                lemma_mul_upper_bound(mb as int, 0xff_ffff, pow2(k as nat) as int, pow2(104) as int);
            }
            let hi: u128 = (mhi as u128) * p2k;
            let lo: u128 = mlo as u128;
            let inner: u128 = if hi >= lo { hi - lo } else { lo - hi };
            if inner == 0 {
                proof {
                    lemma_pow2_pos(126);
                    vstd::arithmetic::mul::lemma_mul_by_zero_is_zero(pow2(elo as nat) as int);
                }
                true
            } else if elo > 126 {
                proof {
                    if elo > 127 {
                        lemma_pow2_strictly_increases(127, elo as nat);
                    }
                    lemma_mul_inequality(1, inner as int, pow2(elo as nat) as int);
                }
                false
            } else {
                let bound = pow2_u128(126 - elo);
                proof {
                    lemma_scaled_compare(inner as int, elo as nat);
                }
                inner <= bound
            }
        }
    } else {
        // Opposite signs, both nonzero: |va - vb| = mag(a) + mag(b).
        if ea > 103 || eb > 103 {
            // A normal value with so large a scale exceeds epsilon alone.
            proof {
                lemma_pow2_adds(23, ea as nat);
                lemma_pow2_adds(23, eb as nat);
                if ea > 103 {
                    lemma_pow2_strictly_increases(126, 23 + ea as nat);
                    lemma_mul_inequality(0x80_0000, ma as int, pow2(ea as nat) as int);
                } else {
                    lemma_pow2_strictly_increases(126, 23 + eb as nat);
                    lemma_mul_inequality(0x80_0000, mb as int, pow2(eb as nat) as int);
                }
                lemma_mul_nonneg_parts(a, b, ma, ea, mb, eb);
            }
            false
        } else {
            let pa = pow2_u128(ea);
            let pb = pow2_u128(eb);
            proof {
                if (ea as nat) < 103 {
                    lemma_pow2_strictly_increases(ea as nat, 103);
                }
                if (eb as nat) < 103 {
                    lemma_pow2_strictly_increases(eb as nat, 103);
                }
                lemma_mul_upper_bound(ma as int, 0xff_ffff, pow2(ea as nat) as int, pow2(103) as int);
                lemma_mul_upper_bound(mb as int, 0xff_ffff, pow2(eb as nat) as int, pow2(103) as int);
                lemma_mul_nonneg_parts(a, b, ma, ea, mb, eb);
            }
            let maga: u128 = (ma as u128) * pa;
            let magb: u128 = (mb as u128) * pb;
            maga + magb <= 0x4000_0000_0000_0000_0000_0000_0000_0000
        }
    }
}

/// Both magnitudes are nonnegative products.
proof fn lemma_mul_nonneg_parts(a: u32, b: u32, ma: u32, ea: u32, mb: u32, eb: u32)
    requires
        scaled_magnitude(a) == ma * pow2(ea as nat),
        scaled_magnitude(b) == mb * pow2(eb as nat),
    ensures
        scaled_magnitude(a) >= 0,
        scaled_magnitude(b) >= 0,
{
    lemma_pow2_pos(ea as nat);
    lemma_pow2_pos(eb as nat);
    lemma_mul_inequality(0, ma as int, pow2(ea as nat) as int);
    lemma_mul_inequality(0, mb as int, pow2(eb as nat) as int);
}

/// The difference of the two coordinate values is, one way or the other, the
/// difference of the magnitudes written as `m * 2^e` products.
spec fn difference_of_magnitudes(a: u32, b: u32, mhi: u32, ehi: u32, mlo: u32, elo: u32) -> bool {
    let maga = mhi * pow2(ehi as nat);
    let magb = mlo * pow2(elo as nat);
    (scaled_value(a) - scaled_value(b) == maga - magb)
        || (scaled_value(a) - scaled_value(b) == magb - maga)
}

/// In the same-sign (or zero) case the difference of the two values has the
/// absolute value `|mhi * 2^(ehi - elo) - mlo| * 2^elo`, where `(mhi, ehi)`
/// names the summand with the larger scale.
proof fn lemma_subtract_shape(a: u32, b: u32, mhi: u32, ehi: u32, mlo: u32, elo: u32)
    requires
        elo <= ehi,
        difference_of_magnitudes(a, b, mhi, ehi, mlo, elo),
    ensures
        abs(scaled_value(a) - scaled_value(b))
            == abs(mhi * pow2((ehi - elo) as nat) - mlo) * pow2(elo as nat),
{
    let k = (ehi - elo) as nat;
    lemma_pow2_adds(k, elo as nat);
    vstd::arithmetic::mul::lemma_mul_is_associative(mhi as int, pow2(k) as int, pow2(elo as nat) as int);
    lemma_mul_is_distributive_sub_other_way(pow2(elo as nat) as int, mhi * pow2(k), mlo as int);
    lemma_pow2_pos(elo as nat);
    let inner = mhi * pow2(k) - mlo;
    assert(abs(inner * pow2(elo as nat)) == abs(inner) * pow2(elo as nat)) by {
        if inner < 0 {
            vstd::arithmetic::mul::lemma_mul_unary_negation(inner, pow2(elo as nat) as int);
            lemma_mul_inequality(inner, 0, pow2(elo as nat) as int);
        } else {
            lemma_mul_inequality(0, inner, pow2(elo as nat) as int);
        }
    }
}

/// Dividing out the common power of two keeps the epsilon comparison exact:
/// `x * 2^e <= 2^126` exactly when `x <= 2^(126 - e)`, for `e <= 126`.
proof fn lemma_scaled_compare(x: int, e: nat)
    requires
        x >= 1,
        e <= 126,
    ensures
        (x * pow2(e) <= pow2(126)) == (x <= pow2((126 - e) as nat)),
{
    let d = (126 - e) as nat;
    lemma_pow2_adds(d, e);
    lemma_pow2_pos(e);
    lemma_pow2_pos(d);
    if x <= pow2(d) {
        lemma_mul_inequality(x, pow2(d) as int, pow2(e) as int);
    } else {
        lemma_mul_inequality(pow2(d) as int + 1, x, pow2(e) as int);
        lemma_mul_is_distributive_add_other_way(pow2(e) as int, pow2(d) as int, 1);
    }
}

} // verus!
