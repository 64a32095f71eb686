use spellsim::object::{collide, segment_hits_box, Object, Shape};
use spellsim::vector::Vector;

fn boxed(x: i64, y: i64, hx: i64, hy: i64) -> Object {
    Object::new(x, y, Shape::Aabb(Vector::new(hx, hy)))
}

#[test]
fn touching_edges_do_not_overlap() {
    // right edge of a at x = 1000 exactly meets left edge of b
    let a = boxed(0, 0, 1_000, 1_000);
    let b = boxed(2_000, 0, 1_000, 1_000);
    assert!(!collide(&a, &b));
    assert!(!collide(&b, &a));
    // the same with zero vertical gap
    let c = boxed(0, 2_000, 1_000, 1_000);
    assert!(!collide(&a, &c));
}

#[test]
fn overlapping_boxes_collide() {
    let a = boxed(0, 0, 1_000, 1_000);
    let b = boxed(1_999, 0, 1_000, 1_000);
    assert!(collide(&a, &b));
    assert!(collide(&b, &a));
}

#[test]
fn separated_boxes_do_not_collide() {
    let a = boxed(0, 0, 1_000, 1_000);
    let b = boxed(5_000, 5_000, 1_000, 1_000);
    assert!(!collide(&a, &b));
}

#[test]
fn zero_probe_is_strict_point_test() {
    let zero = Vector::new(0, 0);
    let bpos = Vector::new(0, 0);
    let bhalf = Vector::new(1_000, 1_000);
    // strictly inside
    assert!(segment_hits_box(Vector::new(1, -999), zero, bpos, bhalf));
    // exactly on the edge: a miss, matching the strict box overlap
    assert!(!segment_hits_box(Vector::new(1_000, 0), zero, bpos, bhalf));
    assert!(!segment_hits_box(Vector::new(0, -1_000), zero, bpos, bhalf));
    // outside
    assert!(!segment_hits_box(Vector::new(1_001, 0), zero, bpos, bhalf));
}

#[test]
fn vertical_probe_hits_box_below() {
    // probing down from just above the box: the endpoint must reach the slab
    let bpos = Vector::new(0, -2_000);
    let bhalf = Vector::new(2_000, 500);
    // endpoint at y = -1500 touches the top edge: a hit (non-strict along the probe)
    assert!(segment_hits_box(Vector::new(0, -499), Vector::new(0, -1_001), bpos, bhalf));
    // endpoint at y = -1499 stops short
    assert!(!segment_hits_box(Vector::new(0, -498), Vector::new(0, -1_001), bpos, bhalf));
    // aligned with the box's side: the parallel axis is strict
    assert!(!segment_hits_box(Vector::new(2_000, -499), Vector::new(0, -1_001), bpos, bhalf));
}

#[test]
fn diagonal_probe_endpoint_decides() {
    let bpos = Vector::new(1_000, 1_000);
    let bhalf = Vector::new(300, 300);
    assert!(segment_hits_box(Vector::new(0, 0), Vector::new(1_000, 1_000), bpos, bhalf));
    assert!(!segment_hits_box(Vector::new(0, 0), Vector::new(600, 600), bpos, bhalf));
}

#[test]
fn segment_object_collides_with_box_object() {
    let probe = Object::new(0, -499, Shape::Line(Vector::new(0, -1_001)));
    let ground = boxed(0, -2_000, 2_000, 500);
    assert!(collide(&probe, &ground));
    assert!(collide(&ground, &probe));
    let short = Object::new(0, -400, Shape::Line(Vector::new(0, -1_001)));
    assert!(!collide(&short, &ground));
}

#[test]
fn at_rest_nothing_moves() {
    // a mover with zero velocity and no overlap is left exactly in place
    let mut mover = boxed(0, 0, 1_000, 1_000);
    let colliders = vec![boxed(5_000, 0, 1_000, 1_000), boxed(0, -3_000, 1_000, 1_000)];
    let collided = mover.move_and_collide(&colliders, 100);
    assert!(!collided);
    assert_eq!((mover.pos.x, mover.pos.y), (0, 0));
    assert_eq!((mover.vel.x, mover.vel.y), (0, 0));
}

#[test]
fn pushup_moves_exactly_the_penetration_depth() {
    // mover sunk 0.15 into the collider from above: pushed up by exactly
    // 0.15, horizontal coordinate untouched
    let mut mover = boxed(0, -1_500, 1_000, 1_000);
    let colliders = vec![boxed(0, -2_000, 1_000, 1_000)];
    let collided = mover.move_and_collide(&colliders, 100);
    assert!(collided);
    assert_eq!(mover.pos.x, 0);
    assert_eq!(mover.pos.y, 0);
    // bottom edge now rests exactly on the collider's top edge
    assert!(!collide(&mover, &colliders[0]));
}

#[test]
fn integration_moves_by_velocity_times_dt() {
    let mut mover = boxed(0, 0, 100, 100);
    mover.vel = Vector::new(10_000, -20_000);
    let collided = mover.move_and_collide(&Vec::new(), 100);
    assert!(!collided);
    // one hundredth of a second at (1.0, -2.0) per second
    assert_eq!((mover.pos.x, mover.pos.y), (100, -200));
}

#[test]
fn corner_overlap_resolves_against_both() {
    // overlapping two stacked colliders: the iteration rescans until the
    // mover is clear of both
    let mut mover = boxed(0, -1_400, 1_000, 1_000);
    let colliders = vec![boxed(0, -2_000, 1_000, 1_000), boxed(0, -2_400, 3_000, 1_000)];
    let collided = mover.move_and_collide(&colliders, 100);
    assert!(collided);
    assert!(!collide(&mover, &colliders[0]));
    assert!(!collide(&mover, &colliders[1]));
}

#[test]
fn tied_depths_push_up_first() {
    // mover exactly centered in an equal collider: all four depths tie,
    // and the tie resolves to the upward push
    let mut mover = boxed(0, 0, 500, 500);
    let colliders = vec![boxed(0, 0, 500, 500)];
    let collided = mover.move_and_collide(&colliders, 100);
    assert!(collided);
    assert_eq!((mover.pos.x, mover.pos.y), (0, 1_000));
}

#[test]
fn resolution_cap_accepts_residual_penetration() {
    // two static slabs that overlap each other around the origin: every
    // push out of one lands inside the other, so the iteration cannot
    // reach a clear position and stops at the pass budget with residual
    // penetration
    let a = boxed(0, -10_000, 20_000, 10_500);
    let b = boxed(0, 10_000, 20_000, 10_500);
    let mut mover = boxed(0, 0, 1_000, 1_000);
    let colliders = vec![a, b];
    let collided = mover.move_and_collide(&colliders, 100);
    assert!(collided);
    // the mover oscillates between resting on a's top and hanging under
    // b's bottom; the even pass budget leaves it at the latter
    assert_eq!((mover.pos.x, mover.pos.y), (0, -1_500));
    assert!(collide(&mover, &colliders[0]));
}
