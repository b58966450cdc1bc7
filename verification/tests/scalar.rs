use raytracer::scalar::{
    clamp, greater, lesser, magnitude, negate, INFINITY, NEAR_ZERO, NEG_INFINITY, ONE,
    SHADOW_EPSILON, ZERO,
};

fn key(x: f64) -> i64 {
    let bits = x.to_bits();
    let mag = (bits & 0x7FFF_FFFF_FFFF_FFFF) as i64;
    if bits >> 63 == 1 {
        -mag
    } else {
        mag
    }
}

#[test]
fn constants_are_the_keys_of_their_values() {
    assert_eq!(ZERO, key(0.0));
    assert_eq!(ZERO, key(-0.0));
    assert_eq!(ONE, key(1.0));
    assert_eq!(INFINITY, key(f64::INFINITY));
    assert_eq!(NEG_INFINITY, key(f64::NEG_INFINITY));
    assert_eq!(NEAR_ZERO, key(1e-8));
    assert_eq!(SHADOW_EPSILON, key(0.001));
}

#[test]
fn keys_keep_the_order_of_the_reals() {
    let xs = [
        f64::NEG_INFINITY,
        -1e300,
        -2.5,
        -1.0,
        -1e-300,
        0.0,
        5e-324,
        1e-8,
        0.5,
        1.0,
        3.75,
        1e300,
        f64::INFINITY,
    ];
    for i in 0..xs.len() {
        for j in 0..xs.len() {
            assert_eq!(xs[i] < xs[j], key(xs[i]) < key(xs[j]));
            assert_eq!(xs[i] == xs[j], key(xs[i]) == key(xs[j]));
        }
    }
}

#[test]
fn negate_flips_the_sign() {
    assert_eq!(negate(key(2.5)), key(-2.5));
    assert_eq!(negate(key(-1e-8)), key(1e-8));
    assert_eq!(negate(ZERO), ZERO);
    assert_eq!(negate(INFINITY), NEG_INFINITY);
    assert_eq!(negate(i64::MIN), i64::MAX);
}

#[test]
fn magnitude_drops_the_sign() {
    assert_eq!(magnitude(key(-3.0)), key(3.0));
    assert_eq!(magnitude(key(3.0)), key(3.0));
    assert_eq!(magnitude(ZERO), ZERO);
}

#[test]
fn lesser_and_greater_select() {
    assert_eq!(lesser(key(-1.0), key(2.0)), key(-1.0));
    assert_eq!(greater(key(-1.0), key(2.0)), key(2.0));
    assert_eq!(lesser(key(2.0), key(2.0)), key(2.0));
}

#[test]
fn clamp_keeps_within_bounds() {
    assert_eq!(clamp(key(1.5), key(0.0), key(0.999)), key(0.999));
    assert_eq!(clamp(key(-0.2), key(0.0), key(0.999)), key(0.0));
    assert_eq!(clamp(key(0.25), key(0.0), key(0.999)), key(0.25));
}
