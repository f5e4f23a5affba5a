//! IEEE 754 single-precision comparisons, computed on bit patterns.
//!
//! Sensor readings and rule thresholds are `f32` values. The library holds
//! each of them as its bit pattern (what `f32::to_bits` returns) and compares
//! them here, with integer arithmetic only.

use vstd::arithmetic::power2::{lemma_pow2_pos, lemma_pow2_strictly_increases, lemma_pow2_unfold, pow2};
use vstd::prelude::*;

verus! {

/// The sign bit of an `f32` bit pattern.
pub open spec fn is_negative(bits: u32) -> bool {
    bits >= 0x8000_0000
}

/// Exponent and mantissa of an `f32` bit pattern, read as one integer.
pub open spec fn magnitude(bits: u32) -> int {
    (bits % 0x8000_0000) as int
}

/// An `f32` bit pattern is NaN when its exponent is all ones and its
/// mantissa is not zero, that is when its magnitude exceeds that of infinity.
pub open spec fn is_nan(bits: u32) -> bool {
    magnitude(bits) > 0x7f80_0000
}

/// For a value that is not NaN, an integer that orders values as the real
/// numbers they stand for: within one sign the magnitude grows with the
/// value, and both zeros get the key 0.
pub open spec fn order_key(bits: u32) -> int {
    if is_negative(bits) {
        -magnitude(bits)
    } else {
        magnitude(bits)
    }
}

/// `a < b` on the `f32` values with bit patterns `a` and `b`: false whenever
/// either is NaN.
pub open spec fn f32_less(a: u32, b: u32) -> bool {
    !is_nan(a) && !is_nan(b) && order_key(a) < order_key(b)
}

/// Decides `a < b` for the `f32` values with bit patterns `a` and `b`.
pub fn f32_lt(a: u32, b: u32) -> (r: bool)
    ensures
        r == f32_less(a, b),
{
    let ma: u32 = a % 0x8000_0000;
    let mb: u32 = b % 0x8000_0000;
    if ma > 0x7f80_0000 || mb > 0x7f80_0000 {
        return false;
    }
    let na: bool = a >= 0x8000_0000;
    let nb: bool = b >= 0x8000_0000;
    if !na && !nb {
        ma < mb
    } else if na && nb {
        mb < ma
    } else if na {
        ma != 0 || mb != 0
    } else {
        false
    }
}

/// Decides `a > b` for the `f32` values with bit patterns `a` and `b`.
pub fn f32_gt(a: u32, b: u32) -> (r: bool)
    ensures
        r == f32_less(b, a),
{
    f32_lt(b, a)
}

/// No value is less than itself.
pub proof fn lemma_less_irreflexive(a: u32)
    ensures
        !f32_less(a, a),
{
}

/// `<` is transitive.
pub proof fn lemma_less_transitive(a: u32, b: u32, c: u32)
    requires
        f32_less(a, b),
        f32_less(b, c),
    ensures
        f32_less(a, c),
{
}

/// NaN compares false with every value, in both directions.
pub proof fn lemma_nan_unordered(a: u32, b: u32)
    requires
        is_nan(a),
    ensures
        !f32_less(a, b),
        !f32_less(b, a),
{
}

/// Positive and negative zero are equal: neither is less than the other.
pub proof fn lemma_zeros_equal()
    ensures
        !f32_less(0x8000_0000u32, 0u32),
        !f32_less(0u32, 0x8000_0000u32),
{
}

/// NaN is exactly an all-ones exponent with a mantissa that is not zero.
pub proof fn lemma_nan_is_ones_exponent_with_mantissa(bits: u32)
    ensures
        is_nan(bits) <==> exponent_field(bits) == 255 && mantissa_field(bits) != 0,
{
}

/// Among values of one sign that are not NaN, bit patterns order as the
/// values do: the larger pattern is the larger value when the sign bit is
/// clear and the smaller value when it is set.
pub proof fn lemma_patterns_order_values(a: u32, b: u32)
    requires
        !is_nan(a),
        !is_nan(b),
        a < b,
    ensures
        b < 0x8000_0000 ==> f32_less(a, b),
        a >= 0x8000_0000 ==> f32_less(b, a),
{
}

/// The exponent field of an `f32` bit pattern.
pub open spec fn exponent_field(bits: u32) -> int {
    magnitude(bits) / 0x80_0000
}

/// The mantissa (fraction) field of an `f32` bit pattern.
pub open spec fn mantissa_field(bits: u32) -> int {
    magnitude(bits) % 0x80_0000
}

/// The absolute value of the number that an `f32` bit pattern stands for,
/// times 2^149, which makes it an integer: a subnormal is its mantissa
/// times 2^-149; a normal value is (2^23 + mantissa) times 2^(exponent - 150).
/// Infinity (exponent 255, mantissa 0) comes out above every finite value.
pub open spec fn scaled_abs(bits: u32) -> int {
    if exponent_field(bits) == 0 {
        mantissa_field(bits)
    } else {
        (mantissa_field(bits) + 0x80_0000) * pow2((exponent_field(bits) - 1) as nat)
    }
}

/// The number that an `f32` bit pattern stands for, times 2^149.
pub open spec fn scaled_value(bits: u32) -> int {
    if is_negative(bits) {
        -scaled_abs(bits)
    } else {
        scaled_abs(bits)
    }
}

/// Bounds of `scaled_abs` by the exponent field: below 2^23 * 2^e, and for a
/// normal value at least 2^23 * 2^(e - 1).
proof fn lemma_scaled_abs_bounds(x: u32)
    ensures
        0 <= scaled_abs(x) < 0x80_0000 * pow2(exponent_field(x) as nat),
        exponent_field(x) >= 1 ==> scaled_abs(x) >= 0x80_0000 * pow2(
            (exponent_field(x) - 1) as nat,
        ),
        scaled_abs(x) == 0 <==> magnitude(x) == 0,
{
    let e = exponent_field(x);
    let m = mantissa_field(x);
    assert(magnitude(x) == e * 0x80_0000 + m);
    assert(0 <= e);
    if e == 0 {
        assert(pow2(0) == 1) by {
            vstd::arithmetic::power2::lemma2_to64();
        }
    } else {
        let p = pow2((e - 1) as nat);
        lemma_pow2_pos((e - 1) as nat);
        lemma_pow2_unfold(e as nat);
        assert(pow2(e as nat) == 2 * p);
        assert((m + 0x80_0000) * p < 0x80_0000 * (2 * p)) by (nonlinear_arith)
            requires
                0 <= m < 0x80_0000,
                p > 0,
        ;
        assert((m + 0x80_0000) * p >= 0x80_0000 * p) by (nonlinear_arith)
            requires
                0 <= m,
                p > 0,
        ;
        assert(0x80_0000 * p > 0) by (nonlinear_arith)
            requires
                p > 0,
        ;
    }
}

/// A larger magnitude field stands for a larger absolute value.
proof fn lemma_scaled_abs_increasing(a: u32, b: u32)
    requires
        magnitude(a) < magnitude(b),
    ensures
        scaled_abs(a) < scaled_abs(b),
{
    let ea = exponent_field(a);
    let eb = exponent_field(b);
    let ma = mantissa_field(a);
    let mb = mantissa_field(b);
    assert(magnitude(a) == ea * 0x80_0000 + ma);
    assert(magnitude(b) == eb * 0x80_0000 + mb);
    lemma_scaled_abs_bounds(a);
    lemma_scaled_abs_bounds(b);
    if ea == eb {
        assert(ma < mb);
        if ea > 0 {
            let p = pow2((ea - 1) as nat);
            lemma_pow2_pos((ea - 1) as nat);
            assert((ma + 0x80_0000) * p < (mb + 0x80_0000) * p) by (nonlinear_arith)
                requires
                    ma < mb,
                    p > 0,
            ;
        }
    } else {
        assert(ea < eb);
        // scaled_abs(a) < 2^23 * 2^ea <= 2^23 * 2^(eb - 1) <= scaled_abs(b)
        let pa = pow2(ea as nat);
        let pb = pow2((eb - 1) as nat);
        if ea < eb - 1 {
            lemma_pow2_strictly_increases(ea as nat, (eb - 1) as nat);
        }
        assert(pa <= pb);
        assert(0x80_0000 * pa <= 0x80_0000 * pb) by (nonlinear_arith)
            requires
                pa <= pb,
        ;
    }
}

/// `<` on bit patterns is the order of the numbers they stand for: for two
/// values that are not NaN, `f32_less` holds exactly when the first number
/// is below the second (both zeros being the number 0, infinities lying
/// beyond every finite value).
pub proof fn lemma_less_is_numeric_order(a: u32, b: u32)
    requires
        !is_nan(a),
        !is_nan(b),
    ensures
        f32_less(a, b) <==> scaled_value(a) < scaled_value(b),
{
    lemma_scaled_abs_bounds(a);
    lemma_scaled_abs_bounds(b);
    if magnitude(a) < magnitude(b) {
        lemma_scaled_abs_increasing(a, b);
    } else if magnitude(b) < magnitude(a) {
        lemma_scaled_abs_increasing(b, a);
    } else {
        assert(exponent_field(a) == exponent_field(b));
        assert(mantissa_field(a) == mantissa_field(b));
        assert(scaled_abs(a) == scaled_abs(b));
    }
}

} // verus!
