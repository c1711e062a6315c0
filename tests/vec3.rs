use raytracer::arith::SCALE;
use raytracer::vec3::{Vec3, VecError};

fn raw(v: f64) -> i64 {
    (v * SCALE as f64) as i64
}

#[test]
fn vec3_eq() {
    let a = Vec3::from_i32(1, 1, 1);
    let b = Vec3::from_i32(1, 1, 1);
    let actual = a == b;
    assert!(actual);
}

#[test]
fn vec3_not_eq() {
    let a = Vec3::from_i32(1, 1, 1);
    let b = Vec3::from_i32(1, 2, 1);
    let actual = a != b;
    assert!(actual);
}

#[test]
fn vec3_addition() {
    let a = Vec3::from_i32(1, 1, 1);
    let b = Vec3::from_i32(2, 2, 2);
    let actual = a.add(b);
    let expected = Vec3::from_i32(3, 3, 3);
    assert_eq!(expected, actual);
}

#[test]
fn vec3_subtraction() {
    let a = Vec3::from_i32(1, 1, 1);
    let b = Vec3::from_i32(2, 2, 2);
    let actual = a.sub(b);
    let expected = Vec3::from_i32(-1, -1, -1);
    assert_eq!(expected, actual);
}

#[test]
fn vec3_scalar_product() {
    let a = Vec3::from_i32(1, -2, 3);
    let k = 7 * SCALE;
    let actual = Vec3::mul(k, a);
    let expected = Vec3::from_i32(7, -14, 21);
    assert_eq!(expected, actual);
}

#[test]
fn vec3_zero() {
    let zero = Vec3::zero();

    let a = Vec3::from_i32(1, -2, 3);
    let sum = zero.add(a);
    assert_eq!(a, sum);

    let a = Vec3::from_i32(3, -2, 1);
    let sub = zero.sub(a);
    let expected = Vec3::mul(-SCALE, a);
    assert_eq!(expected, sub);

    let k = 4 * SCALE;
    let expected = Vec3::zero();
    let scaled = Vec3::mul(k, zero);
    assert_eq!(expected, scaled);
}

#[test]
fn vec3_one() {
    let one = Vec3::one();
    assert_eq!(Vec3::from(SCALE, SCALE, SCALE), one);
}

#[test]
fn vec3_from_iterator() {
    let expected = Vec3::from_i32(1, 2, 3);
    let values = vec![SCALE, 2 * SCALE, 3 * SCALE, 4 * SCALE];
    let a = Vec3::from_iter(&values);
    assert_eq!(expected, a);
}

#[test]
fn from_sequence_fills_missing_with_zero() {
    let a = Vec3::from_iter(&[SCALE]);
    assert_eq!(Vec3::from_i32(1, 0, 0), a);
    let empty: [i64; 0] = [];
    assert_eq!(Vec3::zero(), Vec3::from_iter(&empty));
}

#[test]
fn vec3_to_unit() {
    let a = Vec3::from_i32(3, 2, 1);
    let a_len = 14f64.sqrt();
    let expected = Vec3::from(
        (3.0 * SCALE as f64 / a_len) as i64,
        (2.0 * SCALE as f64 / a_len) as i64,
        (1.0 * SCALE as f64 / a_len) as i64,
    );
    let actual = a.to_unit().unwrap();
    assert_eq!(expected, actual);
}

#[test]
fn to_unit_of_zero_is_an_error() {
    assert_eq!(Err(VecError::DegenerateVector), Vec3::zero().to_unit());
}

#[test]
fn to_unit_truncates_negative_components_toward_zero() {
    let a = Vec3::from_i32(-3, 0, 4);
    assert_eq!(Ok(Vec3::from(-629145, 0, 838860)), a.to_unit());
}

#[test]
fn unit_vector_has_unit_length() {
    let a = Vec3::from(raw(1.5), raw(-0.25), raw(7.0));
    let u = a.to_unit().unwrap();
    let len = u.len();
    assert!(len <= SCALE && len >= SCALE - 2);
}

#[test]
fn dot_product() {
    let a = Vec3::from(raw(1.0), raw(0.0), raw(-8.33));
    let b = Vec3::from(raw(-5.0), raw(2.0), raw(2.0));
    let sum = a.x as i128 * b.x as i128 + a.y as i128 * b.y as i128 + a.z as i128 * b.z as i128;
    let expected = sum.div_euclid(SCALE as i128) as i64;
    let actual = Vec3::dot_product(a, b);
    assert_eq!(expected, actual);
    assert_eq!(actual, Vec3::dot_product(b, a));
}

#[test]
fn cross_product() {
    let a = Vec3::from_i32(1, 2, 3);
    let b = Vec3::from_i32(2, 0, -1);
    let expected = Vec3::from_i32(-2, 7, -4);
    let actual = Vec3::cross_product(a, b);
    assert_eq!(expected, actual);
}

#[test]
fn cross_product_is_orthogonal_to_factors() {
    let a = Vec3::from(raw(0.3), raw(-1.7), raw(2.25));
    let b = Vec3::from(raw(4.1), raw(0.5), raw(-0.75));
    let c = Vec3::cross_product(a, b);
    let l1 = |v: Vec3| v.x.abs() + v.y.abs() + v.z.abs();
    assert!(Vec3::dot_product(c, a).abs() <= l1(a) / SCALE + 1);
    assert!(Vec3::dot_product(c, b).abs() <= l1(b) / SCALE + 1);
    assert!(Vec3::dot_product(c, a).abs() * 1000 < SCALE);
}

#[test]
fn f32_offset() {
    let v = Vec3::from(raw(1.0), raw(0.0), raw(-7.6));
    let n = 4 * SCALE;
    let expected = Vec3::from(v.x() + n, v.y() + n, v.z() + n);
    let actual = v.offset(n);
    assert_eq!(expected, actual)
}

#[test]
fn addition_commutes_and_negation_inverts() {
    let a = Vec3::from(raw(1.5), raw(-2.0), raw(0.125));
    let b = Vec3::from(raw(-0.5), raw(9.0), raw(3.0));
    assert_eq!(a.add(b), b.add(a));
    assert_eq!(Vec3::zero(), a.add(a.neg()));
}

#[test]
fn length_of_three_four_five() {
    let a = Vec3::from_i32(3, 4, 0);
    assert_eq!(5 * SCALE, a.len());
    assert_eq!(25 * SCALE, a.square_len());
}

#[test]
fn length_squared_matches_squared_length() {
    let a = Vec3::from(raw(1.1), raw(2.2), raw(-0.7));
    let l = a.len() as i128;
    let q = a.square_len() as i128;
    let s = SCALE as i128;
    assert!(l * l < (q + 1) * s);
    assert!(q * s < (l + 1) * (l + 1));
}

#[test]
fn scalar_division_is_elementwise() {
    let v = Vec3::from_i32(2, -4, 8);
    let r = Vec3::div(SCALE, v).unwrap();
    assert_eq!(Vec3::from(SCALE / 2, -SCALE / 4, SCALE / 8), r);
    assert_eq!(None, Vec3::div(SCALE, Vec3::from_i32(1, 0, 1)));
}

#[test]
fn vec3_to_string() {
    let a = Vec3::from(raw(12.0), raw(-3.99), raw(7.778));
    let actual = a.to_string();
    assert_eq!("12 -3.99 7.778", actual)
}

#[test]
fn to_string_prints_shortest_round_trip() {
    let a = Vec3::from(1, -SCALE - 1, SCALE / 2);
    assert_eq!("0.000001 -1.000001 0.5", a.to_string());
    let b = Vec3::from(SCALE - 1, -(SCALE / 10), 0);
    assert_eq!("0.9999991 -0.1 0", b.to_string());
}

#[test]
fn cross_product_is_antisymmetric() {
    let a = Vec3::from(1, 0, 0);
    let b = Vec3::from(0, 1, 0);
    assert_eq!(Vec3::cross_product(a, b), Vec3::cross_product(b, a).neg());
    let c = Vec3::from(raw(0.3), raw(-1.7), raw(2.25));
    let d = Vec3::from(raw(4.1), raw(0.5), raw(-0.75));
    assert_eq!(Vec3::cross_product(c, d), Vec3::cross_product(d, c).neg());
}

#[test]
fn unit_length_within_tolerance() {
    let u = Vec3::from_i32(1, 1, 0).to_unit().unwrap();
    let len = u.len() as f64 / SCALE as f64;
    assert!((len - 1.0).abs() <= 1e-5);
    let v = Vec3::from(65791, 0, 0);
    let l = v.len() as f64 / SCALE as f64;
    let q = v.square_len() as f64 / SCALE as f64;
    assert!((l * l - q).abs() <= 1e-5 * q.max(1.0));
}
