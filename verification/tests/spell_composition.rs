use spellsim::spells::{Element, Spell};

fn compose(tokens: &[Element]) -> Spell {
    let mut v: Vec<Element> = Vec::new();
    for t in tokens {
        v.push(*t);
    }
    Spell::new(&v)
}

#[test]
fn single_token_keeps_neutral_stats() {
    // the first token only selects the identity; no rule applies to it
    let s = compose(&[Element::Fire]);
    assert_eq!(s.element, Element::Fire);
    assert_eq!(s.speed, 10_000);
    assert_eq!(s.range, 10_000);
    assert_eq!(s.cost, 10_000);
    assert_eq!(s.strength, 10_000);
    assert_eq!(s.duration, 10_000);
    assert_eq!(s.area, 10_000);
    assert!(!s.is_inverted);
    assert!(!s.is_trap);
    assert_eq!(s.distance_traveled, 0);
}

#[test]
fn composition_is_order_sensitive() {
    // Fire then Water: the Water modifier zeroes the range
    let fw = compose(&[Element::Fire, Element::Water]);
    assert_eq!(fw.range, 0);
    assert_eq!(fw.speed, 10_000);
    assert_eq!(fw.cost, 20_000);
    // Water then Fire: the Fire modifier raises the speed, range keeps
    let wf = compose(&[Element::Water, Element::Fire]);
    assert_eq!(wf.range, 10_000);
    assert_eq!(wf.speed, 20_000);
    assert_eq!(wf.cost, 20_000);
    assert!(fw.range != wf.range);
    assert!(fw.speed != wf.speed);
}

#[test]
fn life_doubles_cost_compounding() {
    // each Life modifier adds the current cost: two of them take
    // 1.0 to 2.0 to 4.0
    let s = compose(&[Element::Void, Element::Life, Element::Life]);
    assert_eq!(s.cost, 40_000);
    assert_eq!(s.strength, 30_000);
    // with Life itself as the base token only the second Life modifies
    let t = compose(&[Element::Life, Element::Life]);
    assert_eq!(t.cost, 20_000);
    assert_eq!(t.strength, 20_000);
}

#[test]
fn first_earth_is_free_later_earth_pays() {
    let s = compose(&[Element::Water, Element::Earth]);
    assert!(s.is_trap);
    assert_eq!(s.cost, 10_000);
    let t = compose(&[Element::Water, Element::Earth, Element::Earth]);
    assert!(t.is_trap);
    assert_eq!(t.cost, 20_000);
}

#[test]
fn shock_halves_duration_and_doubles_strength() {
    let s = compose(&[Element::Water, Element::Shock]);
    assert_eq!(s.duration, 5_000);
    assert_eq!(s.strength, 20_000);
    assert_eq!(s.cost, 20_000);
}

#[test]
fn pressure_halves_area_and_adds_half_strength() {
    let s = compose(&[Element::Water, Element::Pressure]);
    assert_eq!(s.area, 5_000);
    assert_eq!(s.strength, 15_000);
    assert_eq!(s.cost, 20_000);
}

#[test]
fn additive_modifiers_add_one() {
    let s = compose(&[Element::Water, Element::Air]);
    assert_eq!(s.range, 20_000);
    let s = compose(&[Element::Fire, Element::Fire]);
    assert_eq!(s.speed, 20_000);
    let s = compose(&[Element::Water, Element::Acid]);
    assert_eq!(s.duration, 20_000);
    let s = compose(&[Element::Water, Element::Radiance]);
    assert_eq!(s.area, 20_000);
    let s = compose(&[Element::Water, Element::Life]);
    assert_eq!(s.strength, 20_000);
    assert_eq!(s.cost, 20_000);
}

#[test]
fn void_toggles_inversion_for_free() {
    let s = compose(&[Element::Water, Element::Void]);
    assert!(s.is_inverted);
    assert_eq!(s.cost, 10_000);
    let t = compose(&[Element::Water, Element::Void, Element::Void]);
    assert!(!t.is_inverted);
    assert_eq!(t.cost, 10_000);
}

#[test]
fn water_zeroes_range_applied_after_air() {
    let s = compose(&[Element::Fire, Element::Air, Element::Air, Element::Water]);
    assert_eq!(s.range, 0);
    assert_eq!(s.cost, 40_000);
}

#[test]
fn expiry_is_strictly_past_the_range() {
    // range 1.0 times the base range 2.0: the projectile expires once the
    // accumulated distance exceeds 2.0, and not before
    let mut s = compose(&[Element::Fire]);
    s.distance_traveled = 20_000;
    assert!(!s.is_expired(false));
    s.distance_traveled = 20_001;
    assert!(s.is_expired(false));
    s.distance_traveled = 0;
    assert!(!s.is_expired(false));
    // a collision expires it regardless of distance
    assert!(s.is_expired(true));
}
