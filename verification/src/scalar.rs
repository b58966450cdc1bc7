//! Coordinates in sortable form.
//!
//! A [`Scalar`] stands for one real coordinate. The host maps each
//! double-precision value to a 64-bit integer: the integer that the bits of the
//! value's magnitude spell (exponent above fraction), with the value's sign.
//! Both zeros map to 0. Values that are equal as reals get the same integer, and
//! the order of the integers is the order of the reals they stand for, the two
//! infinities included. The library compares, selects, negates and stores such
//! values and never computes with them otherwise; a value that is not a number
//! has no place in this order, and the host keeps it away.

use vstd::prelude::*;

verus! {

/// One real coordinate in sortable form.
pub type Scalar = i64;

/// Positive zero.
pub const ZERO: Scalar = 0;

/// One.
pub const ONE: Scalar = 0x3FF0_0000_0000_0000;

/// Positive infinity.
pub const INFINITY: Scalar = 0x7FF0_0000_0000_0000;

/// Negative infinity.
pub const NEG_INFINITY: Scalar = -0x7FF0_0000_0000_0000;

/// The bound below which a magnitude counts as zero: ten to the minus eighth.
pub const NEAR_ZERO: Scalar = 0x3E45_798E_E230_8C3A;

/// The lower end of the parameter range of a light path: one thousandth, which
/// keeps a scattered ray from meeting the surface it leaves.
pub const SHADOW_EPSILON: Scalar = 0x3F50_624D_D2F1_A9FC;

/// The scalar that stands for the negated real: the sign flips, the magnitude
/// stays. The lowest integer, which stands for no real, goes to the highest.
pub open spec fn spec_negate(k: Scalar) -> Scalar {
    if k == i64::MIN {
        i64::MAX
    } else {
        (-k) as Scalar
    }
}

/// The scalar that stands for the absolute value.
pub open spec fn spec_magnitude(k: Scalar) -> Scalar {
    if k < 0 {
        spec_negate(k)
    } else {
        k
    }
}

/// The smaller of two scalars.
pub open spec fn spec_lesser(a: Scalar, b: Scalar) -> Scalar {
    if a <= b {
        a
    } else {
        b
    }
}

/// The larger of two scalars.
pub open spec fn spec_greater(a: Scalar, b: Scalar) -> Scalar {
    if a >= b {
        a
    } else {
        b
    }
}

/// Negates a scalar.
pub fn negate(k: Scalar) -> (r: Scalar)
    ensures
        r == spec_negate(k),
{
    if k == i64::MIN {
        i64::MAX
    } else {
        -k
    }
}

/// The absolute value of a scalar.
pub fn magnitude(k: Scalar) -> (r: Scalar)
    ensures
        r == spec_magnitude(k),
        r >= 0,
{
    if k < 0 {
        negate(k)
    } else {
        k
    }
}

/// The smaller of two scalars.
pub fn lesser(a: Scalar, b: Scalar) -> (r: Scalar)
    ensures
        r == spec_lesser(a, b),
{
    if a <= b {
        a
    } else {
        b
    }
}

/// The larger of two scalars.
pub fn greater(a: Scalar, b: Scalar) -> (r: Scalar)
    ensures
        r == spec_greater(a, b),
{
    if a >= b {
        a
    } else {
        b
    }
}

/// The scalar between `min` and `max` that is nearest to `x`.
pub open spec fn spec_clamp(x: Scalar, min: Scalar, max: Scalar) -> Scalar {
    if x < min {
        min
    } else if x > max {
        max
    } else {
        x
    }
}

/// The scalar between `min` and `max` that is nearest to `x`; `min` where `x`
/// is below both.
pub fn clamp(x: Scalar, min: Scalar, max: Scalar) -> (r: Scalar)
    ensures
        r == spec_clamp(x, min, max),
{
    if x < min {
        return min;
    }
    if x > max {
        return max;
    }
    x
}

/// Negating a real twice gives it back, negation reverses the order, and a
/// real and its negation have the same magnitude.
pub proof fn lemma_negate(a: Scalar, b: Scalar)
    requires
        a != i64::MIN,
        b != i64::MIN,
    ensures
        spec_negate(spec_negate(a)) == a,
        a < b <==> spec_negate(b) < spec_negate(a),
        spec_magnitude(spec_negate(a)) == spec_magnitude(a),
        spec_negate(ZERO) == ZERO,
{
}

} // verus!
