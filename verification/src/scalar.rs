//! Scalar layer: every number in this crate is the bit pattern of an IEEE-754
//! binary64 value, carried as a `u64`. The four arithmetic operations and the
//! conversion from an integer are performed by `rustc_apfloat`, a software
//! implementation of IEEE-754 binary64 with round-to-nearest-even, behind
//! trusted wrappers whose results are named by uninterpreted spec functions.
//! Everything else here — sign flip, classification, and the `exp` and `ln`
//! approximations — is verified code over those names and plain integer
//! bit manipulation.

use vstd::prelude::*;
use rustc_apfloat::Float;
use rustc_apfloat::ieee::Double;

verus! {

/// Bit pattern of +0.0.
pub const ZERO_BITS: u64 = 0x0000_0000_0000_0000;
/// Bit pattern of 1.0.
pub const ONE_BITS: u64 = 0x3FF0_0000_0000_0000;
/// Bit pattern of +infinity.
pub const POS_INF_BITS: u64 = 0x7FF0_0000_0000_0000;
/// Bit pattern of -infinity.
pub const NEG_INF_BITS: u64 = 0xFFF0_0000_0000_0000;
/// Bit pattern of a quiet NaN.
pub const QNAN_BITS: u64 = 0x7FF8_0000_0000_0000;

/// The sign bit of the encoded value.
pub open spec fn sign_bits(x: u64) -> bool {
    x >> 63 == 1u64
}

/// The magnitude part of the encoding: everything but the sign bit.
pub open spec fn abs_bits(x: u64) -> u64 {
    x & 0x7FFF_FFFF_FFFF_FFFF
}

/// The biased exponent field of the encoding.
pub open spec fn biased_exp_bits(x: u64) -> u64 {
    (x >> 52) & 0x7FF
}

/// The mantissa field of the encoding.
pub open spec fn mantissa_bits(x: u64) -> u64 {
    x & 0x000F_FFFF_FFFF_FFFF
}

/// The encoded value is a NaN: exponent field all ones, mantissa non-zero.
pub open spec fn is_nan_bits(x: u64) -> bool {
    abs_bits(x) > POS_INF_BITS
}

/// The encoded value is +0.0 or -0.0.
pub open spec fn is_zero_bits(x: u64) -> bool {
    abs_bits(x) == 0u64
}

/// IEEE-754 negation is exactly a sign-bit flip, for every bit pattern.
pub open spec fn neg_bits_spec(x: u64) -> u64 {
    x ^ 0x8000_0000_0000_0000
}

/// What `rustc_apfloat`'s binary64 addition returns on the two bit patterns.
pub uninterp spec fn add_bits(a: u64, b: u64) -> u64;

/// What `rustc_apfloat`'s binary64 subtraction returns on the two bit patterns.
pub uninterp spec fn sub_bits(a: u64, b: u64) -> u64;

/// What `rustc_apfloat`'s binary64 multiplication returns, on the two bit
/// patterns in ascending order; see `mul_bits` for why the order is fixed.
pub uninterp spec fn mul_bits_raw(a: u64, b: u64) -> u64;

/// What `rustc_apfloat`'s binary64 division returns on the two bit patterns.
pub uninterp spec fn div_bits(a: u64, b: u64) -> u64;

/// What `rustc_apfloat`'s conversion from an unsigned integer to binary64
/// returns, rounding to nearest even.
pub uninterp spec fn u64_to_bits(n: u64) -> u64;

/// Binary64 multiplication is symmetric in its operands whenever neither is a
/// NaN (the sign is the two signs' xor, significands multiply symmetrically,
/// and an invalid 0 times infinity yields the default quiet NaN either way;
/// only the choice of which NaN operand to propagate is order-dependent).
/// Sorting the operands makes that symmetry visible to the verifier.
pub open spec fn mul_bits(a: u64, b: u64) -> u64 {
    if !is_nan_bits(a) && !is_nan_bits(b) && b < a {
        mul_bits_raw(b, a)
    } else {
        mul_bits_raw(a, b)
    }
}

/// Relies on `rustc_apfloat::ieee::Double`: IEEE-754 binary64 addition of the
/// two encoded values, rounding to nearest even.
#[verifier::external_body]
pub(crate) fn real_add(a: u64, b: u64) -> (r: u64)
    ensures
        r == add_bits(a, b),
{
    (Double::from_bits(a as u128) + Double::from_bits(b as u128)).value.to_bits() as u64
}

/// Relies on `rustc_apfloat::ieee::Double`: IEEE-754 binary64 subtraction of
/// the two encoded values, rounding to nearest even.
#[verifier::external_body]
pub(crate) fn real_sub(a: u64, b: u64) -> (r: u64)
    ensures
        r == sub_bits(a, b),
{
    (Double::from_bits(a as u128) - Double::from_bits(b as u128)).value.to_bits() as u64
}

/// Relies on `rustc_apfloat::ieee::Double`: IEEE-754 binary64 multiplication
/// of the two encoded values, rounding to nearest even. Its result is
/// symmetric in the operands unless one of them is a NaN, which is why the
/// contract may order them; see `mul_bits`.
#[verifier::external_body]
pub(crate) fn real_mul(a: u64, b: u64) -> (r: u64)
    ensures
        r == mul_bits(a, b),
        !is_nan_bits(a) && !is_nan_bits(b) && b < a ==> r == mul_bits_raw(b, a),
        !(!is_nan_bits(a) && !is_nan_bits(b) && b < a) ==> r == mul_bits_raw(a, b),
{
    (Double::from_bits(a as u128) * Double::from_bits(b as u128)).value.to_bits() as u64
}

/// Relies on `rustc_apfloat::ieee::Double`: IEEE-754 binary64 division of the
/// two encoded values, rounding to nearest even.
#[verifier::external_body]
pub(crate) fn real_div(a: u64, b: u64) -> (r: u64)
    ensures
        r == div_bits(a, b),
{
    (Double::from_bits(a as u128) / Double::from_bits(b as u128)).value.to_bits() as u64
}

/// Relies on `rustc_apfloat::ieee::Double::from_u128`: conversion of an
/// unsigned integer to the nearest binary64 value.
#[verifier::external_body]
pub(crate) fn real_of_u64(n: u64) -> (r: u64)
    ensures
        r == u64_to_bits(n),
{
    Double::from_u128(n as u128).value.to_bits() as u64
}

/// Flips the sign bit, which is exactly IEEE-754 negation.
pub fn neg_bits(x: u64) -> (r: u64)
    ensures
        r == neg_bits_spec(x),
{
    x ^ 0x8000_0000_0000_0000
}


/// Bit pattern of ln 2.
pub const LN2_BITS: u64 = 0x3FE6_2E42_FEFA_39EF;
/// Bit pattern of 1 / ln 2.
pub const INV_LN2_BITS: u64 = 0x3FF7_1547_652B_82FE;
/// Bit pattern of the square root of 2.
pub const SQRT2_BITS: u64 = 0x3FF6_A09E_667F_3BCD;
/// Bit pattern of 710.0; the exponential of anything at least this large
/// overflows binary64.
pub const EXP_OVERFLOW_BITS: u64 = 0x4086_3000_0000_0000;
/// Bit pattern of 746.0; the exponential of anything at most minus this
/// underflows binary64 to zero.
pub const EXP_UNDERFLOW_BITS: u64 = 0x4087_5000_0000_0000;

/// The Taylor polynomial of the exponential, degree 20, evaluated at the
/// encoded value by Horner's scheme; the coefficients are the bit patterns
/// of 1/k! for k = 0..=20.
pub open spec fn exp_poly_spec(r: u64) -> u64 {
    let p: u64 = 0x3C1E_542B_A402_0225u64;
    let p: u64 = add_bits(0x3C62_F49B_4681_4157u64, mul_bits(r, p));
    let p: u64 = add_bits(0x3CA6_8278_63B9_7D97u64, mul_bits(r, p));
    let p: u64 = add_bits(0x3CE9_52C7_7030_AD4Au64, mul_bits(r, p));
    let p: u64 = add_bits(0x3D2A_E7F3_E733_B81Fu64, mul_bits(r, p));
    let p: u64 = add_bits(0x3D6A_E7F3_E733_B81Fu64, mul_bits(r, p));
    let p: u64 = add_bits(0x3DA9_3974_A8C0_7C9Du64, mul_bits(r, p));
    let p: u64 = add_bits(0x3DE6_1246_13A8_6D09u64, mul_bits(r, p));
    let p: u64 = add_bits(0x3E21_EED8_EFF8_D898u64, mul_bits(r, p));
    let p: u64 = add_bits(0x3E5A_E645_67F5_44E4u64, mul_bits(r, p));
    let p: u64 = add_bits(0x3E92_7E4F_B778_9F5Cu64, mul_bits(r, p));
    let p: u64 = add_bits(0x3EC7_1DE3_A556_C734u64, mul_bits(r, p));
    let p: u64 = add_bits(0x3EFA_01A0_1A01_A01Au64, mul_bits(r, p));
    let p: u64 = add_bits(0x3F2A_01A0_1A01_A01Au64, mul_bits(r, p));
    let p: u64 = add_bits(0x3F56_C16C_16C1_6C17u64, mul_bits(r, p));
    let p: u64 = add_bits(0x3F81_1111_1111_1111u64, mul_bits(r, p));
    let p: u64 = add_bits(0x3FA5_5555_5555_5555u64, mul_bits(r, p));
    let p: u64 = add_bits(0x3FC5_5555_5555_5555u64, mul_bits(r, p));
    let p: u64 = add_bits(0x3FE0_0000_0000_0000u64, mul_bits(r, p));
    let p: u64 = add_bits(0x3FF0_0000_0000_0000u64, mul_bits(r, p));
    let p: u64 = add_bits(0x3FF0_0000_0000_0000u64, mul_bits(r, p));
    p
}

/// Evaluates the degree-20 Taylor polynomial of the exponential.
fn exp_poly(r: u64) -> (p: u64)
    ensures
        p == exp_poly_spec(r),
{
    let p: u64 = 0x3C1E_542B_A402_0225u64;
    let p: u64 = real_add(0x3C62_F49B_4681_4157u64, real_mul(r, p));
    let p: u64 = real_add(0x3CA6_8278_63B9_7D97u64, real_mul(r, p));
    let p: u64 = real_add(0x3CE9_52C7_7030_AD4Au64, real_mul(r, p));
    let p: u64 = real_add(0x3D2A_E7F3_E733_B81Fu64, real_mul(r, p));
    let p: u64 = real_add(0x3D6A_E7F3_E733_B81Fu64, real_mul(r, p));
    let p: u64 = real_add(0x3DA9_3974_A8C0_7C9Du64, real_mul(r, p));
    let p: u64 = real_add(0x3DE6_1246_13A8_6D09u64, real_mul(r, p));
    let p: u64 = real_add(0x3E21_EED8_EFF8_D898u64, real_mul(r, p));
    let p: u64 = real_add(0x3E5A_E645_67F5_44E4u64, real_mul(r, p));
    let p: u64 = real_add(0x3E92_7E4F_B778_9F5Cu64, real_mul(r, p));
    let p: u64 = real_add(0x3EC7_1DE3_A556_C734u64, real_mul(r, p));
    let p: u64 = real_add(0x3EFA_01A0_1A01_A01Au64, real_mul(r, p));
    let p: u64 = real_add(0x3F2A_01A0_1A01_A01Au64, real_mul(r, p));
    let p: u64 = real_add(0x3F56_C16C_16C1_6C17u64, real_mul(r, p));
    let p: u64 = real_add(0x3F81_1111_1111_1111u64, real_mul(r, p));
    let p: u64 = real_add(0x3FA5_5555_5555_5555u64, real_mul(r, p));
    let p: u64 = real_add(0x3FC5_5555_5555_5555u64, real_mul(r, p));
    let p: u64 = real_add(0x3FE0_0000_0000_0000u64, real_mul(r, p));
    let p: u64 = real_add(0x3FF0_0000_0000_0000u64, real_mul(r, p));
    let p: u64 = real_add(0x3FF0_0000_0000_0000u64, real_mul(r, p));
    p
}

/// The inverse-hyperbolic-tangent series polynomial, degree 10 in t*t,
/// evaluated by Horner's scheme; the coefficients are the bit patterns of
/// 1/(2k+1) for k = 0..=10.
pub open spec fn ln_poly_spec(s: u64) -> u64 {
    let p: u64 = 0x3FA8_6186_1861_8618u64;
    let p: u64 = add_bits(0x3FAA_F286_BCA1_AF28u64, mul_bits(s, p));
    let p: u64 = add_bits(0x3FAE_1E1E_1E1E_1E1Eu64, mul_bits(s, p));
    let p: u64 = add_bits(0x3FB1_1111_1111_1111u64, mul_bits(s, p));
    let p: u64 = add_bits(0x3FB3_B13B_13B1_3B14u64, mul_bits(s, p));
    let p: u64 = add_bits(0x3FB7_45D1_745D_1746u64, mul_bits(s, p));
    let p: u64 = add_bits(0x3FBC_71C7_1C71_C71Cu64, mul_bits(s, p));
    let p: u64 = add_bits(0x3FC2_4924_9249_2492u64, mul_bits(s, p));
    let p: u64 = add_bits(0x3FC9_9999_9999_999Au64, mul_bits(s, p));
    let p: u64 = add_bits(0x3FD5_5555_5555_5555u64, mul_bits(s, p));
    let p: u64 = add_bits(0x3FF0_0000_0000_0000u64, mul_bits(s, p));
    p
}

/// Evaluates the degree-10 series polynomial used by `ln_bits`.
fn ln_poly(s: u64) -> (p: u64)
    ensures
        p == ln_poly_spec(s),
{
    let p: u64 = 0x3FA8_6186_1861_8618u64;
    let p: u64 = real_add(0x3FAA_F286_BCA1_AF28u64, real_mul(s, p));
    let p: u64 = real_add(0x3FAE_1E1E_1E1E_1E1Eu64, real_mul(s, p));
    let p: u64 = real_add(0x3FB1_1111_1111_1111u64, real_mul(s, p));
    let p: u64 = real_add(0x3FB3_B13B_13B1_3B14u64, real_mul(s, p));
    let p: u64 = real_add(0x3FB7_45D1_745D_1746u64, real_mul(s, p));
    let p: u64 = real_add(0x3FBC_71C7_1C71_C71Cu64, real_mul(s, p));
    let p: u64 = real_add(0x3FC2_4924_9249_2492u64, real_mul(s, p));
    let p: u64 = real_add(0x3FC9_9999_9999_999Au64, real_mul(s, p));
    let p: u64 = real_add(0x3FD5_5555_5555_5555u64, real_mul(s, p));
    let p: u64 = real_add(0x3FF0_0000_0000_0000u64, real_mul(s, p));
    p
}

/// The integer part of the encoded value, taken toward zero and clamped into
/// [-1100, 1100]; every magnitude of 2048 or more (infinities and NaNs
/// included) lands on the clamp.
pub open spec fn trunc_clamp_spec(x: u64) -> int {
    let e: int = biased_exp_bits(x) as int - 1023;
    let mag: int = if e < 0 {
        0
    } else if e >= 11 {
        2048
    } else {
        ((mantissa_bits(x) | 0x0010_0000_0000_0000u64) >> ((52 - e) as u64)) as int
    };
    let m: int = if mag > 1100 { 1100 } else { mag };
    if sign_bits(x) { -m } else { m }
}

/// Extracts the clamped integer part of the encoded value by bit inspection.
fn trunc_clamp(x: u64) -> (k: i64)
    ensures
        k as int == trunc_clamp_spec(x),
        -1100 <= k <= 1100,
{
    let be: u64 = (x >> 52) & 0x7FF;
    let mag: u64 = if be < 1023 {
        0
    } else if be >= 1034 {
        2048
    } else {
        let sh: u64 = 52 - (be - 1023);
        ((x & 0x000F_FFFF_FFFF_FFFFu64) | 0x0010_0000_0000_0000u64) >> sh
    };
    let magc: u64 = if mag > 1100 { 1100 } else { mag };
    if x >> 63 == 1 {
        -(magc as i64)
    } else {
        magc as i64
    }
}

/// The bit pattern of 2 to the power j, for j in the normal exponent range:
/// the biased exponent alone, shifted into place.
pub open spec fn pow2_spec(j: int) -> u64 {
    ((j + 1023) as u64) << 52u64
}

/// Builds the bit pattern of a power of two directly from its exponent.
fn pow2_bits(j: i64) -> (r: u64)
    requires
        -1022 <= j <= 1023,
    ensures
        r == pow2_spec(j as int),
{
    ((j + 1023) as u64) << 52u64
}

/// The bit pattern of the signed integer k: the unsigned conversion with the
/// sign bit flipped on for negative k, which is exact.
pub open spec fn int_to_bits_spec(k: int) -> u64 {
    if k < 0 {
        neg_bits_spec(u64_to_bits((-k) as u64))
    } else {
        u64_to_bits(k as u64)
    }
}

/// Converts a small signed integer to the bit pattern of its binary64 value.
fn int_to_real(k: i64) -> (r: u64)
    requires
        -1100 <= k <= 1100,
    ensures
        r == int_to_bits_spec(k as int),
{
    if k < 0 {
        neg_bits(real_of_u64((-k) as u64))
    } else {
        real_of_u64(k as u64)
    }
}

/// The first half of the power-of-two scaling exponent, kept in the normal
/// range; the remainder goes into `exp_scale2_spec`.
pub open spec fn exp_scale1_spec(k: int) -> int {
    if k > 1023 {
        1023
    } else if k < -1022 {
        -1022
    } else {
        k
    }
}

/// The second half of the power-of-two scaling exponent.
pub open spec fn exp_scale2_spec(k: int) -> int {
    k - exp_scale1_spec(k)
}

/// The crate's own approximation of the exponential on bit patterns.
///
/// NaNs pass through; arguments at or above 710 give +infinity and at or
/// below -746 give +0.0 (where the true exponential overflows, respectively
/// underflows, anyway). Otherwise the argument is reduced by k times ln 2,
/// where k is its integer multiple of ln 2 taken toward zero; the degree-20
/// Taylor polynomial is evaluated on the remainder, and the result is scaled
/// by 2^k in two exact power-of-two factors. exp(+0.0) and exp(-0.0) are
/// exactly 1.0.
pub open spec fn exp_spec(x: u64) -> u64 {
    if is_nan_bits(x) {
        x
    } else if !sign_bits(x) && abs_bits(x) >= EXP_OVERFLOW_BITS {
        POS_INF_BITS
    } else if sign_bits(x) && abs_bits(x) >= EXP_UNDERFLOW_BITS {
        ZERO_BITS
    } else {
        let k: int = trunc_clamp_spec(mul_bits(x, INV_LN2_BITS));
        let r: u64 = sub_bits(x, mul_bits(int_to_bits_spec(k), LN2_BITS));
        let p: u64 = exp_poly_spec(r);
        mul_bits(mul_bits(p, pow2_spec(exp_scale1_spec(k))), pow2_spec(exp_scale2_spec(k)))
    }
}

/// Computes `exp_spec` on the bit pattern.
pub fn exp_bits(x: u64) -> (r: u64)
    ensures
        r == exp_spec(x),
{
    let mag: u64 = x & 0x7FFF_FFFF_FFFF_FFFF;
    let neg: bool = x >> 63 == 1;
    if mag > POS_INF_BITS {
        x
    } else if !neg && mag >= EXP_OVERFLOW_BITS {
        POS_INF_BITS
    } else if neg && mag >= EXP_UNDERFLOW_BITS {
        ZERO_BITS
    } else {
        let k: i64 = trunc_clamp(real_mul(x, INV_LN2_BITS));
        let r: u64 = real_sub(x, real_mul(int_to_real(k), LN2_BITS));
        let p: u64 = exp_poly(r);
        let k1: i64 = if k > 1023 {
            1023
        } else if k < -1022 {
            -1022
        } else {
            k
        };
        let k2: i64 = k - k1;
        real_mul(real_mul(p, pow2_bits(k1)), pow2_bits(k2))
    }
}

/// The crate's own approximation of the natural logarithm on bit patterns.
///
/// NaNs pass through; both zeros give -infinity, negative values give a quiet
/// NaN, +infinity passes through. A positive finite argument is split into
/// mantissa and exponent by bit inspection (subnormals are first scaled by
/// 2^54, exactly), the mantissa is folded into [sqrt(2)/2, sqrt(2)] and fed
/// to the inverse-hyperbolic-tangent series, and the exponent contributes a
/// multiple of ln 2. ln(1.0) is exactly +0.0.
pub open spec fn ln_spec(x: u64) -> u64 {
    if is_nan_bits(x) {
        x
    } else if is_zero_bits(x) {
        NEG_INF_BITS
    } else if sign_bits(x) {
        QNAN_BITS
    } else if x == POS_INF_BITS {
        x
    } else {
        let yb: u64 = if biased_exp_bits(x) == 0 { mul_bits(x, pow2_spec(54)) } else { x };
        let adj: int = if biased_exp_bits(x) == 0 { -54 } else { 0 };
        let e0: int = biased_exp_bits(yb) as int - 1023 + adj;
        let m: u64 = mantissa_bits(yb) | ONE_BITS;
        let w: u64 = if m > SQRT2_BITS { (m - 0x0010_0000_0000_0000) as u64 } else { m };
        let e1: int = if m > SQRT2_BITS { e0 + 1 } else { e0 };
        let t: u64 = div_bits(sub_bits(w, ONE_BITS), add_bits(w, ONE_BITS));
        let z: u64 = mul_bits(t, ln_poly_spec(mul_bits(t, t)));
        add_bits(add_bits(z, z), mul_bits(int_to_bits_spec(e1), LN2_BITS))
    }
}

/// Computes `ln_spec` on the bit pattern.
pub fn ln_bits(x: u64) -> (r: u64)
    ensures
        r == ln_spec(x),
{
    let mag: u64 = x & 0x7FFF_FFFF_FFFF_FFFF;
    if mag > POS_INF_BITS {
        x
    } else if mag == 0 {
        NEG_INF_BITS
    } else if x >> 63 == 1 {
        QNAN_BITS
    } else if x == POS_INF_BITS {
        x
    } else {
        let be_x: u64 = (x >> 52) & 0x7FF;
        let yb: u64 = if be_x == 0 { real_mul(x, pow2_bits(54)) } else { x };
        let adj: i64 = if be_x == 0 { -54 } else { 0 };
        let be_y: u64 = (yb >> 52) & 0x7FF;
        assert(be_y <= 0x7FF) by (bit_vector)
            requires
                be_y == (yb >> 52) & 0x7FF,
        ;
        let e0: i64 = be_y as i64 - 1023 + adj;
        let m: u64 = (yb & 0x000F_FFFF_FFFF_FFFF) | ONE_BITS;
        assert(m >= 0x3FF0_0000_0000_0000u64) by (bit_vector)
            requires
                m == (yb & 0x000F_FFFF_FFFF_FFFF) | 0x3FF0_0000_0000_0000u64,
        ;
        let w: u64 = if m > SQRT2_BITS { m - 0x0010_0000_0000_0000 } else { m };
        let e1: i64 = if m > SQRT2_BITS { e0 + 1 } else { e0 };
        let t: u64 = real_div(real_sub(w, ONE_BITS), real_add(w, ONE_BITS));
        let z: u64 = real_mul(t, ln_poly(real_mul(t, t)));
        real_add(real_add(z, z), real_mul(int_to_real(e1), LN2_BITS))
    }
}

} // verus!
