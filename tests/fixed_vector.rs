use particles::fixed_vector::{div_toward_zero, Vector};
use particles::sqrt::{isqrt_u128, Sqrt};

#[test]
fn test_vector3_add() {
    let r = Vector::new([1i64, 1, 1]).add(Vector::new([1, 2, 3]));
    assert_eq!(r.0, [2, 3, 4]);
}

#[test]
fn test_vector3_sub() {
    let r = Vector::new([1i64, 2, 3]).sub(Vector::new([1, 1, 1]));
    assert_eq!(r.0, [0, 1, 2]);
}

#[test]
fn test_vector3_mul() {
    let r = Vector::new([1i64, 2, 3]).scale(2);
    assert_eq!(r.0, [2, 4, 6]);
}

#[test]
fn test_vector3_div() {
    let r = Vector::new([2i64, 4, 6]).divide(2);
    assert_eq!(r.0, [1, 2, 3]);
}

#[test]
fn divide_rounds_toward_zero() {
    let r = Vector::new([7i64, -7, 6]).divide(2);
    assert_eq!(r.0, [3, -3, 3]);
    let r = Vector::new([7i64, -7]).divide(-2);
    assert_eq!(r.0, [-3, 3]);
    assert_eq!(div_toward_zero(i64::MIN, 1), i64::MIN);
}

#[test]
fn negate_flips_signs() {
    let r = Vector::new([1i64, -2, 0]).neg();
    assert_eq!(r.0, [-1, 2, 0]);
}

#[test]
fn dot_and_lengths() {
    let a = Vector::new([1i64, 2, 3]);
    let b = Vector::new([4i64, -5, 6]);
    assert_eq!(a.dot(b), 12);
    assert_eq!(Vector::new([3i64, 4]).square_length(), 25);
    assert_eq!(Vector::new([3i64, 4]).length(), 5);
    assert_eq!(Vector::new([1i64, 1]).length(), 1);
    assert_eq!(Vector::new([0i64, 0, 0]).length(), 0);
    assert_eq!(a.size(), 3);
    assert_eq!(*a.get(2), 3);
}

#[test]
fn normalized_divides_by_length() {
    let r = Vector::new([10i64, 0]).normalized();
    assert_eq!(r.0, [1, 0]);
    let r = Vector::new([6i64, 8]).normalized();
    assert_eq!(r.0, [0, 0]);
}

#[test]
fn add_then_sub_round_trip() {
    let a = Vector::new([5i64, -9, 12, 0]);
    let b = Vector::new([-3i64, 4, 100, 7]);
    assert_eq!(a.add(b).sub(b).0, a.0);
}

#[test]
fn dot_distributes_over_add() {
    let a = Vector::new([1i64, 2, 3]);
    let b = Vector::new([-4i64, 0, 9]);
    let c = Vector::new([2i64, 7, -1]);
    assert_eq!(a.add(b).dot(c), a.dot(c) + b.dot(c));
}

#[test]
fn scale_then_divide_round_trip() {
    let v = Vector::new([5i64, -9, 0]);
    assert_eq!(v.scale(-3).divide(-3).0, v.0);
    assert_eq!(v.scale(7).divide(7).0, v.0);
}

#[test]
fn integer_square_roots() {
    assert_eq!(isqrt_u128(0), 0);
    assert_eq!(isqrt_u128(15), 3);
    assert_eq!(isqrt_u128(16), 4);
    assert_eq!(isqrt_u128(u128::MAX), u64::MAX as u128);
    assert_eq!(24i64.sqrt(), 4);
    assert_eq!((-4i64).sqrt(), 0);
    assert_eq!(i64::MAX.sqrt(), 3037000499);
}

#[test]
fn iterates_components_in_order() {
    let v = Vector::new([4i64, -1, 9]);
    let items: Vec<i64> = v.iter().copied().collect();
    assert_eq!(items, vec![4, -1, 9]);
}
