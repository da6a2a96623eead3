use raytracer::colour::Colour;
use raytracer::fixed::{fdiv, fmul, isqrt, sqrt_fx, HALF, ONE};
use raytracer::vector::{reflect, Vec3};

#[test]
fn fixed_multiplication_truncates_toward_zero() {
    assert_eq!(fmul(ONE, ONE), ONE);
    assert_eq!(fmul(3 * ONE, 2 * ONE), 6 * ONE);
    assert_eq!(fmul(ONE / 2, ONE / 2), ONE / 4);
    assert_eq!(fmul(-ONE, ONE), -ONE);
    assert_eq!(fmul(-ONE, -ONE), ONE);
    // 3/65536 * 3/65536 truncates to zero.
    assert_eq!(fmul(3, 3), 0);
    assert_eq!(fmul(-3, 3), 0);
}

#[test]
fn fixed_division_truncates_toward_zero() {
    assert_eq!(fdiv(ONE, 2 * ONE), HALF);
    assert_eq!(fdiv(6 * ONE, 3 * ONE), 2 * ONE);
    assert_eq!(fdiv(-6 * ONE, 3 * ONE), -2 * ONE);
    assert_eq!(fdiv(ONE, 3 * ONE), 21845);
    assert_eq!(fdiv(-ONE, 3 * ONE), -21845);
}

#[test]
fn integer_square_root_is_exact_on_squares() {
    assert_eq!(isqrt(0), 0);
    assert_eq!(isqrt(1), 1);
    assert_eq!(isqrt(24), 4);
    assert_eq!(isqrt(25), 5);
    assert_eq!(isqrt(26), 5);
    assert_eq!(isqrt(0x1_0000_0000), 0x1_0000);
    assert_eq!(sqrt_fx(ONE), ONE);
    assert_eq!(sqrt_fx(4 * ONE), 2 * ONE);
    assert_eq!(sqrt_fx(25 * ONE), 5 * ONE);
}

#[test]
fn vector_dot_and_cross_products() {
    let x = Vec3::new(ONE, 0, 0);
    let y = Vec3::new(0, ONE, 0);
    let z = Vec3::new(0, 0, ONE);
    assert_eq!(x.dot(x), ONE);
    assert_eq!(x.dot(y), 0);
    assert_eq!(x.cross(y).unwrap(), z);
    assert_eq!(y.cross(x).unwrap(), Vec3::new(0, 0, -ONE));
}

#[test]
fn normalization_of_exact_unit_vector_is_identity() {
    let z = Vec3::new(0, 0, ONE);
    assert_eq!(z.normalize(), z);
    let v = Vec3::new(0, 0, 5 * ONE);
    assert_eq!(v.normalize(), z);
    let w = Vec3::new(3 * ONE, 4 * ONE, 0);
    let n = w.normalize();
    assert_eq!(n, Vec3::new(39321, 52428, 0));
}

#[test]
fn zero_vector_normalizes_to_itself() {
    let v = Vec3::new(0, 0, 0);
    assert_eq!(v.normalize(), v);
}

#[test]
fn mirror_reflection_law_flat_mirror() {
    // Incoming straight down the mirror normal comes straight back.
    let v = Vec3::new(0, 0, -ONE);
    let n = Vec3::new(0, 0, ONE);
    assert_eq!(reflect(v, n).unwrap(), Vec3::new(0, 0, ONE));
    // A slanted incoming direction keeps x and y and flips z.
    let v2 = Vec3::new(12345, -678, -ONE);
    assert_eq!(reflect(v2, n).unwrap(), Vec3::new(12345, -678, ONE));
}

#[test]
fn colour_addition_laws() {
    let a = Colour { r: ONE, g: 2 * ONE, b: 3 * ONE, a: ONE };
    let b = Colour { r: 10, g: 20, b: 30, a: 0 };
    let c = Colour { r: 7, g: 7, b: 7, a: 7 };
    assert_eq!(a.add(b), b.add(a));
    assert_eq!(a.add(b).add(c), a.add(b.add(c)));
    assert_eq!(a.sub(b).add(b), a);
}

#[test]
fn colour_lerp_endpoints_are_exact() {
    let a = Colour { r: ONE, g: 0, b: HALF, a: ONE };
    let b = Colour { r: 0, g: ONE, b: ONE, a: HALF };
    assert_eq!(a.lerp(b, 0), a);
    assert_eq!(a.lerp(b, ONE), b);
    let mid = a.lerp(b, HALF);
    assert_eq!(mid, Colour { r: HALF, g: HALF, b: HALF + HALF / 2, a: ONE - HALF / 2 });
}

#[test]
fn colour_multiplication_is_commutative() {
    let a = Colour { r: ONE, g: HALF, b: 3, a: ONE };
    let b = Colour { r: HALF, g: HALF, b: 5, a: ONE };
    assert_eq!(a.mul(b), b.mul(a));
    assert_eq!(a.mul_scalar(HALF), Colour { r: HALF, g: HALF / 2, b: 1, a: HALF });
}

#[test]
fn colour_division_and_remainder() {
    let a = Colour { r: 6 * ONE, g: 3 * ONE, b: ONE, a: ONE };
    assert_eq!(
        a.div_scalar(2 * ONE),
        Colour { r: 3 * ONE, g: ONE + HALF, b: HALF, a: HALF }
    );
    let b = Colour { r: 5, g: -5, b: 7, a: 0 };
    assert_eq!(b.rem_scalar(3), Colour { r: 2, g: -2, b: 1, a: 0 });
}

#[test]
fn scalar_multiplication_associates_only_to_tolerance() {
    // The two groupings of a triple product can differ by a truncation
    // unit, and never by more than the proved tolerance.
    let lhs = fmul(fmul(ONE + 1, ONE + 1), HALF);
    let rhs = fmul(ONE + 1, fmul(ONE + 1, HALF));
    assert_eq!(lhs, HALF + 1);
    assert_eq!(rhs, HALF);
    assert!((lhs - rhs).abs() <= 2 + (ONE + 1 + HALF) / 65536);
}

#[test]
fn vector_negation_flips_every_component() {
    let v = Vec3::new(ONE, -2 * ONE, 3);
    assert_eq!(v.neg(), Vec3::new(-ONE, 2 * ONE, -3));
}

#[test]
fn colour_zero_is_black_but_not_is_zero() {
    let z = Colour::zero();
    assert_eq!(z, raytracer::colour::black());
    // The additive identity of the fold keeps an opaque alpha channel, so
    // it does not satisfy is_zero.
    assert!(!z.is_zero());
    assert!(Colour { r: 0, g: 0, b: 0, a: 0 }.is_zero());
    let mut c = Colour { r: 5, g: 5, b: 5, a: 5 };
    c.set_zero();
    assert_eq!(c, raytracer::colour::black());
}

#[test]
fn colour_sum_folds_from_black() {
    let v = vec![
        Colour { r: ONE, g: 0, b: 1, a: ONE },
        Colour { r: ONE, g: 5, b: 2, a: ONE },
    ];
    let s = Colour::sum(&v);
    assert_eq!(s, Colour { r: 2 * ONE, g: 5, b: 3, a: 3 * ONE });
    assert_eq!(Colour::sum(&vec![]), raytracer::colour::black());
}
