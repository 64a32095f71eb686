use spellsim::fixed::FX_ONE;
use spellsim::vector::Vector;

#[test]
fn vector_new_holds_components() {
    let v = Vector::new(3, -4);
    assert_eq!(v.x, 3);
    assert_eq!(v.y, -4);
}

#[test]
fn vector_add_sub_are_componentwise() {
    let a = Vector::new(10_000, -2_000);
    let b = Vector::new(-3_000, 500);
    let s = a.add(b);
    assert_eq!((s.x, s.y), (7_000, -1_500));
    let d = a.sub(b);
    assert_eq!((d.x, d.y), (13_000, -2_500));
}

#[test]
fn vector_mul_is_fixed_point_componentwise() {
    // 2.0 * 0.5 = 1.0 and 3.0 * 0.5 = 1.5
    let a = Vector::new(20_000, 30_000);
    let b = Vector::new(5_000, 5_000);
    let p = a.mul(b);
    assert_eq!((p.x, p.y), (10_000, 15_000));
}

#[test]
fn vector_scale_is_fixed_point() {
    // (2.0, -3.0) * 0.5 = (1.0, -1.5)
    let v = Vector::new(20_000, -30_000).scale(5_000);
    assert_eq!((v.x, v.y), (10_000, -15_000));
}

#[test]
fn vector_dot_is_fixed_point() {
    // (2.0, 0) . (3.0, 1.0) = 6.0
    let r = Vector::new(20_000, 0).dot(Vector::new(30_000, 10_000));
    assert_eq!(r, 60_000);
}

#[test]
fn vector_length_of_three_four_five() {
    // |(3.0, 4.0)| = 5.0, exactly, in any quadrant
    assert_eq!(Vector::new(30_000, 40_000).length(), 50_000);
    assert_eq!(Vector::new(-30_000, 40_000).length(), 50_000);
    assert_eq!(Vector::new(30_000, -40_000).length(), 50_000);
    assert_eq!(Vector::new(0, 0).length(), 0);
}

#[test]
fn vector_length_floors() {
    // |(1.0, 1.0)| = sqrt(2) = 1.4142..., floored at the quantum
    assert_eq!(Vector::new(10_000, 10_000).length(), 14_142);
}

#[test]
fn vector_normalized_unit_direction() {
    // (3.0, 4.0) normalizes to (0.6, 0.8), exactly
    let d = Vector::new(30_000, 40_000).normalized().unwrap();
    assert_eq!((d.x, d.y), (6_000, 8_000));
    let e = Vector::new(-5, 0).normalized().unwrap();
    assert_eq!((e.x, e.y), (-FX_ONE, 0));
}

#[test]
fn vector_normalized_zero_is_none() {
    assert!(Vector::new(0, 0).normalized().is_none());
}
