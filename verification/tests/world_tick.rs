use spellsim::input::Button;
use spellsim::spells::Element;
use spellsim::vector::Vector;
use spellsim::world::{Color, World};

fn player_pos(w: &World) -> (i64, i64) {
    let p = w.objects[w.player_id].as_ref().unwrap();
    (p.pos.x, p.pos.y)
}

fn player_vel(w: &World) -> (i64, i64) {
    let p = w.objects[w.player_id].as_ref().unwrap();
    (p.vel.x, p.vel.y)
}

#[test]
fn initial_layout() {
    let w = World::new();
    assert_eq!(w.player_id, 0);
    assert_eq!(w.total_ids, 8);
    assert_eq!(w.ground_ids, vec![1, 2, 3, 4, 5, 6, 7]);
    assert_eq!(w.objects.len(), 8);
    assert_eq!(w.colors.len(), 8);
    assert_eq!(w.spells.len(), 8);
    assert_eq!(player_pos(&w), (0, 5_000));
    assert_eq!(player_vel(&w), (0, 0));
    assert!(w.spells.iter().all(|s| s.is_none()));
    assert_eq!(w.colors[0], Some(Color { r: 0, g: 0, b: 1000 }));
    assert!(w.elements.is_empty());
}

#[test]
fn free_fall_accelerates_by_gravity() {
    let mut w = World::new();
    w.update();
    // airborne: velocity drops by 0.1 per tick, position follows by vel/100
    assert_eq!(player_vel(&w), (0, -1_000));
    assert_eq!(player_pos(&w), (0, 4_990));
    assert_eq!(w.colors[0], Some(Color { r: 0, g: 0, b: 1000 }));
    w.update();
    assert_eq!(player_vel(&w), (0, -2_000));
    assert_eq!(player_pos(&w), (0, 4_970));
}

#[test]
fn falling_player_lands_on_platform() {
    let mut w = World::new();
    for _ in 0..100 {
        w.update();
    }
    // resting: the bottom edge sits exactly on the platform's top edge
    assert_eq!(player_pos(&w), (0, -500));
    assert_eq!(player_vel(&w), (0, 0));
    assert_eq!(w.colors[0], Some(Color { r: 0, g: 1000, b: 0 }));
}

#[test]
fn jump_launches_only_from_the_ground() {
    let mut w = World::new();
    // a jump pressed while airborne is consumed without effect
    w.update_button(Button::Jump, true);
    w.update();
    assert_eq!(player_vel(&w), (0, -1_000));
    w.update_button(Button::Jump, false);
    // land, then jump
    for _ in 0..100 {
        w.update();
    }
    w.update_button(Button::Jump, true);
    w.update();
    assert_eq!(player_vel(&w), (0, 30_000));
    assert_eq!(player_pos(&w), (0, -200));
    // the press edge was consumed: holding the key does not jump again
    w.update();
    assert_eq!(player_vel(&w), (0, 29_000));
}

#[test]
fn held_movement_key_moves_at_constant_speed() {
    let mut w = World::new();
    for _ in 0..100 {
        w.update();
    }
    w.update_button(Button::MoveRight, true);
    w.update();
    let (x1, _) = player_pos(&w);
    assert_eq!(x1, 100);
    w.update();
    let (x2, _) = player_pos(&w);
    assert_eq!(x2, 200);
    // instant direction change, left key wins over right
    w.update_button(Button::MoveLeft, true);
    w.update();
    let (x3, _) = player_pos(&w);
    assert_eq!(x3, 100);
    w.update_button(Button::MoveLeft, false);
    w.update_button(Button::MoveRight, false);
    w.update();
    assert_eq!(player_pos(&w).0, 100);
}

#[test]
fn button_edges_are_consumed_once() {
    let mut w = World::new();
    assert!(!w.is_button_held(Button::Cast));
    w.update_button(Button::Cast, true);
    assert!(w.is_button_held(Button::Cast));
    assert!(w.is_button_pressed(Button::Cast));
    // the edge is gone, the hold is not
    assert!(!w.is_button_pressed(Button::Cast));
    assert!(w.is_button_held(Button::Cast));
    // a repeated raw press while held does not mint a new edge
    w.update_button(Button::Cast, true);
    assert!(!w.is_button_pressed(Button::Cast));
    // release and press again: a fresh edge
    w.update_button(Button::Cast, false);
    assert!(!w.is_button_held(Button::Cast));
    w.update_button(Button::Cast, true);
    assert!(w.is_button_pressed(Button::Cast));
}

#[test]
fn selected_elements_queue_in_key_order() {
    let mut w = World::new();
    w.update_button(Button::Select(Element::Life), true);
    w.update_button(Button::Select(Element::Fire), true);
    w.update();
    // both pressed in the same tick: queued in the fixed polling order
    assert_eq!(w.elements, vec![Element::Fire, Element::Life]);
    w.update();
    assert_eq!(w.elements, vec![Element::Fire, Element::Life]);
}

#[test]
fn cast_spawns_a_projectile() {
    let mut w = World::new();
    for _ in 0..100 {
        w.update();
    }
    // player rests at (0, -0.05); aim straight right
    w.mouse = Vector::new(10_000, -500);
    w.update_button(Button::Select(Element::Fire), true);
    w.update();
    assert_eq!(w.elements, vec![Element::Fire]);
    w.update_button(Button::Cast, true);
    w.update();
    // the projectile got the next id and the queue was emptied
    assert_eq!(w.total_ids, 9);
    assert!(w.elements.is_empty());
    let stats = w.spells[8].as_ref().unwrap();
    assert_eq!(stats.element, Element::Fire);
    // it was already advanced once in the same tick: 0.05 to the right,
    // with gravity applied after the move
    let o = w.objects[8].as_ref().unwrap();
    assert_eq!((o.pos.x, o.pos.y), (500, -500));
    assert_eq!((o.vel.x, o.vel.y), (50_000, -1_000));
    assert_eq!(stats.distance_traveled, 500);
    // the player did not move
    assert_eq!(player_pos(&w), (0, -500));
}

#[test]
fn cast_with_zero_aim_is_suppressed() {
    let mut w = World::new();
    for _ in 0..100 {
        w.update();
    }
    // pointer exactly on the player: no direction, no projectile,
    // and the pending queue is kept
    w.mouse = Vector::new(0, -500);
    w.update_button(Button::Select(Element::Fire), true);
    w.update();
    w.update_button(Button::Cast, true);
    w.update();
    assert_eq!(w.total_ids, 8);
    assert_eq!(w.elements, vec![Element::Fire]);
}

#[test]
fn cast_without_elements_is_suppressed() {
    let mut w = World::new();
    for _ in 0..100 {
        w.update();
    }
    w.mouse = Vector::new(10_000, -500);
    w.update_button(Button::Cast, true);
    w.update();
    assert_eq!(w.total_ids, 8);
}

#[test]
fn projectile_expires_and_is_removed() {
    let mut w = World::new();
    for _ in 0..100 {
        w.update();
    }
    w.mouse = Vector::new(10_000, -500);
    w.update_button(Button::Select(Element::Fire), true);
    w.update();
    w.update_button(Button::Cast, true);
    w.update();
    assert!(w.spells[8].is_some());
    for _ in 0..100 {
        w.update();
    }
    // flew into the right wall (or out of range) and was removed;
    // the id is never reused
    assert!(w.spells[8].is_none());
    assert!(w.objects[8].is_none());
    assert_eq!(w.total_ids, 9);
}

#[test]
fn ceiling_contact_bounces_off() {
    // a hand-built world: the player with a low ceiling one quantum above
    // its head and no floor
    let mut w = World::new();
    w.ground_ids = vec![1];
    w.total_ids = 2;
    w.objects.truncate(2);
    w.colors.truncate(2);
    w.spells.truncate(2);
    let player = spellsim::object::Object::new(
        0,
        0,
        spellsim::object::Shape::Aabb(Vector::new(500, 1_000)),
    );
    w.objects[0] = Some(player);
    let ceiling = spellsim::object::Object::new(
        0,
        1_501,
        spellsim::object::Shape::Aabb(Vector::new(2_000, 500)),
    );
    w.objects[1] = Some(ceiling);
    w.update();
    // the upward probe reaches the ceiling's bottom edge: contact
    assert_eq!(w.colors[0], Some(Color { r: 1000, g: 0, b: 0 }));
    assert_eq!(player_vel(&w), (0, -100));
    assert_eq!(player_pos(&w), (0, -1));
}
