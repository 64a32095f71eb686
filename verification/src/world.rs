//! The simulation world and its fixed tick.
//!
//! The world aggregates the entity store (dense id-indexed tables of
//! optional components), the static ground ids, the player id, the queue
//! of elements selected but not yet cast, the button tracker and the
//! pointer position.  Ids are allocated by a plain counter and never
//! reused; components are removed only by spell expiry.
//!
//! One call of [`World::update`] runs exactly one fixed tick, and its
//! whole effect is the mathematical function [`tick_spec`]: read the
//! movement keys, probe for ground and ceiling contact, decide the
//! player's velocity, move and collide the player, collect newly selected
//! elements, cast a pending spell toward the pointer, and advance every
//! in-flight spell, expiring those that collided or ran out of range.

use vstd::prelude::*;
use crate::fixed::{fx_mul, fx_mul_spec, iabs, sat_add_spec, sat_fx_mul_spec, clamp_mag_spec,
    div_trunc, DT, FX_ONE, GEOM_LIMIT};
use crate::vector::{len_spec, normalized_spec, vec_bounded, Vector};
use crate::object::{aabb_half, advance_spec, collider_ok, seg_hits_box, Object, Shape, SIM_LIMIT,
    VEL_LIMIT};
use crate::input::{button_index, consume_press, input_wf, on_press, on_release, state_held,
    state_of, Button, ButtonState, InputState, BUTTON_COUNT};
use crate::spells::{compose_spec, spell_wf, Element, Spell, BASE_SPELL_RANGE, BASE_SPELL_SPEED};

verus! {

/// Downward acceleration, in quanta per second per second.
pub const GRAVITY: i64 = 100_000;

/// Instantaneous upward velocity of a jump.
pub const JUMP_SPEED: i64 = 30_000;

/// Horizontal speed while a movement key is held.
pub const MOVE_SPEED: i64 = 10_000;

/// Small downward velocity applied while touching a ceiling, so the
/// player does not stick to it.
pub const CEILING_BOUNCE: i64 = -100;

/// Full height of the player's box.
pub const PLAYER_HEIGHT: i64 = 2_000;

/// Extra probe length beyond the player's half-height.
pub const GROUND_CHECK: i64 = 1;

/// Length of the ground and ceiling probes: the player's half-height
/// plus the check distance.
pub const GROUND_PROBE: i64 = 1_001;

/// Half-extent of a spell projectile's box.
pub const SPELL_HALF_EXTENT: i64 = 500;

/// Cap on the magnitude of a freshly cast projectile's velocity.
pub const SPELL_VEL_CAP: i64 = 0x8000_0000;

/// Bound on stored positions and velocities a tick starts from.
pub const WORLD_LIMIT: i64 = 0x100_0000_0000;

/// Bound on how many entities the store may hold at the start of a tick.
pub const MAX_ENTITIES: usize = 0x1_0000;

/// A display color with channels in thousandths.
#[derive(Clone, Copy, Debug, PartialEq, Eq, Structural)]
pub struct Color {
    pub r: u16,
    pub g: u16,
    pub b: u16,
}

/// The aggregate simulation state.
pub struct World {
    pub player_id: usize,
    pub ground_ids: Vec<usize>,
    pub total_ids: usize,
    pub objects: Vec<Option<Object>>,
    pub colors: Vec<Option<Color>>,
    pub spells: Vec<Option<Spell>>,
    pub elements: Vec<Element>,
    pub input: InputState,
    pub mouse: Vector,
}

/// Mathematical model of the world: the same data over sequences.
#[verifier::ext_equal]
pub struct WorldM {
    pub player_id: usize,
    pub ground_ids: Seq<usize>,
    pub total_ids: usize,
    pub objects: Seq<Option<Object>>,
    pub colors: Seq<Option<Color>>,
    pub spells: Seq<Option<Spell>>,
    pub elements: Seq<Element>,
    pub buttons: Seq<ButtonState>,
    pub mouse: Vector,
}

impl World {
    /// The world's mathematical model.
    pub open spec fn m(self) -> WorldM {
        WorldM {
            player_id: self.player_id,
            ground_ids: self.ground_ids@,
            total_ids: self.total_ids,
            objects: self.objects@,
            colors: self.colors@,
            spells: self.spells@,
            elements: self.elements@,
            buttons: self.input.states@,
            mouse: self.mouse,
        }
    }
}

/// A stored entity: a box within the stored bounds.
pub open spec fn world_obj_ok(o: Object) -> bool {
    &&& o.shape is Aabb
    &&& vec_bounded(o.pos, WORLD_LIMIT as int)
    &&& vec_bounded(o.vel, WORLD_LIMIT as int)
    &&& vec_bounded(aabb_half(o.shape), GEOM_LIMIT as int)
}

/// Well-formedness of the world at the start of a tick: the component
/// tables are aligned and dense up to the id counter, the player exists
/// and carries no spell, every stored entity is a bounded box, every
/// ground id points at a stored entity, every spell has an entity and
/// non-negative stats, and the tracker has one state per button.
pub open spec fn world_wf(m: WorldM) -> bool {
    &&& m.objects.len() == m.total_ids
    &&& m.colors.len() == m.total_ids
    &&& m.spells.len() == m.total_ids
    &&& m.total_ids <= MAX_ENTITIES
    &&& m.player_id < m.total_ids
    &&& m.objects[m.player_id as int] is Some
    &&& m.spells[m.player_id as int] is None
    &&& forall|i: int|
        0 <= i < m.objects.len() && m.objects[i] is Some ==> world_obj_ok(
            (#[trigger] m.objects[i]).unwrap(),
        )
    &&& forall|i: int|
        0 <= i < m.ground_ids.len() ==> (#[trigger] m.ground_ids[i]) < m.total_ids
            && m.objects[m.ground_ids[i] as int] is Some
    &&& forall|i: int|
        0 <= i < m.spells.len() && m.spells[i] is Some ==> m.objects[i] is Some && spell_wf(
            (#[trigger] m.spells[i]).unwrap(),
        )
    &&& m.buttons.len() == BUTTON_COUNT
    &&& vec_bounded(m.mouse, WORLD_LIMIT as int)
}

/// The button is held in the given tracker state.
pub open spec fn held(buttons: Seq<ButtonState>, b: Button) -> bool {
    state_held(buttons[button_index(b)])
}

/// The button has an unread press edge.
pub open spec fn pressed_now(buttons: Seq<ButtonState>, b: Button) -> bool {
    buttons[button_index(b)] is HeldUnreadPress
}

/// Tracker states after reading (and so consuming) a press edge.
pub open spec fn consumed_state(buttons: Seq<ButtonState>, b: Button) -> Seq<ButtonState> {
    buttons.update(button_index(b), consume_press(buttons[button_index(b)]))
}

/// Desired horizontal velocity: a pure function of the held movement
/// keys, with the left key winning and no acceleration or friction.
pub open spec fn desired_vx(buttons: Seq<ButtonState>) -> i64 {
    if held(buttons, Button::MoveLeft) {
        (-MOVE_SPEED) as i64
    } else if held(buttons, Button::MoveRight) {
        MOVE_SPEED
    } else {
        0
    }
}

/// The static ground entities, in the order of their ids in the list.
pub open spec fn grounds_of(m: WorldM) -> Seq<Object> {
    Seq::new(m.ground_ids.len(), |i: int| m.objects[m.ground_ids[i] as int].unwrap())
}

/// A probe from `pos` by `dir` hits some collider of the list.
pub open spec fn probe_hits(pos: Vector, dir: Vector, grounds: Seq<Object>) -> bool {
    exists|i: int|
        0 <= i < grounds.len() && seg_hits_box(
            pos,
            dir,
            (#[trigger] grounds[i]).pos,
            aabb_half(grounds[i].shape),
        )
}

/// Visual feedback of the player's contact state.
pub open spec fn player_color(on_ground: bool, on_ceiling: bool) -> Color {
    if on_ground {
        Color { r: 0, g: 1000, b: 0 }
    } else if on_ceiling {
        Color { r: 1000, g: 0, b: 0 }
    } else {
        Color { r: 0, g: 0, b: 1000 }
    }
}

/// Vertical velocity decision, in priority order: a jump pressed on the
/// ground launches; resting on the ground zeroes it; touching a ceiling
/// bounces off slightly; otherwise free fall with no terminal clamp.
pub open spec fn vertical_velocity(jump: bool, on_ground: bool, on_ceiling: bool, vy: i64) -> i64 {
    if jump && on_ground {
        JUMP_SPEED
    } else if on_ground {
        0
    } else if on_ceiling {
        CEILING_BOUNCE
    } else {
        (vy - fx_mul_spec(GRAVITY as int, DT as int)) as i64
    }
}

/// Componentwise difference, as a model value.
pub open spec fn vsub(a: Vector, b: Vector) -> Vector {
    Vector { x: (a.x - b.x) as i64, y: (a.y - b.y) as i64 }
}

/// First stage of a tick: decide the player's velocity from the held
/// movement keys, the consumed jump edge and the ground/ceiling probes
/// (cast from the pre-move position), recolor the player, and move it
/// against the static grounds.
pub open spec fn tick_move_player(m: WorldM) -> WorldM {
    let player = m.objects[m.player_id as int].unwrap();
    let grounds = grounds_of(m);
    let on_ceiling = probe_hits(player.pos, Vector { x: 0, y: GROUND_PROBE }, grounds);
    let on_ground = probe_hits(player.pos, Vector { x: 0, y: (-GROUND_PROBE) as i64 }, grounds);
    let colors1 = m.colors.update(
        m.player_id as int,
        Option::Some(player_color(on_ground, on_ceiling)),
    );
    let jump = pressed_now(m.buttons, Button::Jump);
    let buttons1 = consumed_state(m.buttons, Button::Jump);
    let vel1 = Vector {
        x: desired_vx(m.buttons),
        y: vertical_velocity(jump, on_ground, on_ceiling, player.vel.y),
    };
    let mover = Object { pos: player.pos, vel: vel1, shape: player.shape };
    let moved = advance_spec(mover, grounds, DT as int);
    let player2 = Object { pos: moved.0, vel: vel1, shape: player.shape };
    WorldM {
        objects: m.objects.update(m.player_id as int, Option::Some(player2)),
        colors: colors1,
        buttons: buttons1,
        ..m
    }
}

/// The element selection buttons, in the order they are polled.
pub open spec fn element_order() -> Seq<Element> {
    seq![
        Element::Earth,
        Element::Water,
        Element::Air,
        Element::Fire,
        Element::Acid,
        Element::Pressure,
        Element::Shock,
        Element::Radiance,
        Element::Life,
        Element::Void,
    ]
}

/// Poll the selection buttons from index `i` on: each unread press edge
/// is consumed and appends its element to the pending queue.
pub open spec fn push_elements_from(buttons: Seq<ButtonState>, elements: Seq<Element>, i: int) -> (
    Seq<ButtonState>,
    Seq<Element>,
)
    decreases 10 - i,
{
    if i < 0 || i >= 10 {
        (buttons, elements)
    } else {
        let e = element_order()[i];
        let pressed = pressed_now(buttons, Button::Select(e));
        let buttons1 = consumed_state(buttons, Button::Select(e));
        let elements1 = if pressed {
            elements.push(e)
        } else {
            elements
        };
        push_elements_from(buttons1, elements1, i + 1)
    }
}

/// Second stage of a tick: collect newly selected elements.
pub open spec fn tick_push_elements(m: WorldM) -> WorldM {
    let r = push_elements_from(m.buttons, m.elements, 0);
    WorldM { buttons: r.0, elements: r.1, ..m }
}

/// One component of a projectile's launch velocity: the aim direction
/// times the base spell speed times the speed stat, capped in magnitude.
pub open spec fn spell_vel_component(d: int, speed: int) -> int {
    clamp_mag_spec(
        div_trunc(fx_mul_spec(d, BASE_SPELL_SPEED as int) * speed, FX_ONE as int),
        SPELL_VEL_CAP as int,
    )
}

/// A projectile's launch velocity.
pub open spec fn spell_velocity(dir: Vector, speed: i64) -> Vector {
    Vector {
        x: spell_vel_component(dir.x as int, speed as int) as i64,
        y: spell_vel_component(dir.y as int, speed as int) as i64,
    }
}

/// Third stage of a tick: if the cast button's press edge is pending it
/// is consumed, and when the aim direction (from the player's pre-move
/// position toward the pointer) is non-degenerate and elements are
/// pending, a projectile entity is spawned with the composed stats and
/// the pending queue is emptied.  A zero aim vector suppresses the cast
/// and keeps the queue.
pub open spec fn tick_cast(m: WorldM, aim_from: Vector) -> WorldM {
    let cast = pressed_now(m.buttons, Button::Cast);
    let buttons1 = consumed_state(m.buttons, Button::Cast);
    let base = WorldM { buttons: buttons1, ..m };
    if !cast {
        base
    } else {
        match normalized_spec(vsub(m.mouse, aim_from)) {
            Option::None => base,
            Option::Some(dir) => {
                if m.elements.len() == 0 {
                    base
                } else {
                    let stats = compose_spec(m.elements);
                    let obj = Object {
                        pos: aim_from,
                        vel: spell_velocity(dir, stats.speed),
                        shape: Shape::Aabb(
                            Vector { x: SPELL_HALF_EXTENT, y: SPELL_HALF_EXTENT },
                        ),
                    };
                    WorldM {
                        total_ids: (m.total_ids + 1) as usize,
                        objects: m.objects.push(Option::Some(obj)),
                        colors: m.colors.push(Option::None),
                        spells: m.spells.push(Option::Some(stats)),
                        elements: Seq::empty(),
                        buttons: buttons1,
                        ..m
                    }
                }
            },
        }
    }
}

/// The collider list a moving entity is resolved against: every stored
/// entity except the player and the mover itself, in id order.
pub open spec fn colliders_from(objects: Seq<Option<Object>>, skip_a: int, skip_b: int, j: int)
    -> Seq<Object>
    decreases objects.len() - j,
{
    if j < 0 || j >= objects.len() {
        Seq::empty()
    } else {
        let rest = colliders_from(objects, skip_a, skip_b, j + 1);
        if j != skip_a && j != skip_b && objects[j] is Some {
            seq![objects[j].unwrap()] + rest
        } else {
            rest
        }
    }
}

/// Advance one in-flight spell: move it against everything except the
/// caster and itself; it expires if it collided or its accumulated
/// distance already exceeds its range times the base range, and
/// otherwise accrues the distance just flown and feels gravity.
pub open spec fn spell_step(
    objects: Seq<Option<Object>>,
    spells: Seq<Option<Spell>>,
    player: int,
    id: int,
) -> (Seq<Option<Object>>, Seq<Option<Spell>>, bool) {
    let stats = spells[id].unwrap();
    let o = objects[id].unwrap();
    let cs = colliders_from(objects, player, id, 0);
    let adv = advance_spec(o, cs, DT as int);
    let expired = adv.1 || stats.distance_traveled > sat_fx_mul_spec(
        stats.range as int,
        BASE_SPELL_RANGE as int,
    );
    if expired {
        (
            objects.update(id, Option::Some(Object { pos: adv.0, vel: o.vel, shape: o.shape })),
            spells,
            true,
        )
    } else {
        let dist = sat_add_spec(
            stats.distance_traveled as int,
            len_spec(vsub(adv.0, o.pos)),
        );
        let vel = Vector {
            x: o.vel.x,
            y: (o.vel.y - fx_mul_spec(GRAVITY as int, DT as int)) as i64,
        };
        (
            objects.update(id, Option::Some(Object { pos: adv.0, vel, shape: o.shape })),
            spells.update(id, Option::Some(Spell { distance_traveled: dist as i64, ..stats })),
            false,
        )
    }
}

/// Advance every in-flight spell from id `id` on, in id order, marking
/// the expired ones for removal (removal itself is deferred to the end
/// of the tick, so a spell expired earlier in the pass still blocks
/// later ones).
pub open spec fn spells_pass(
    objects: Seq<Option<Object>>,
    spells: Seq<Option<Spell>>,
    hits: Seq<bool>,
    player: int,
    id: int,
) -> (Seq<Option<Object>>, Seq<Option<Spell>>, Seq<bool>)
    decreases objects.len() - id,
{
    if id < 0 || id >= objects.len() {
        (objects, spells, hits)
    } else if spells[id] is Some {
        let st = spell_step(objects, spells, player, id);
        spells_pass(st.0, st.1, hits.update(id, st.2), player, id + 1)
    } else {
        spells_pass(objects, spells, hits, player, id + 1)
    }
}

/// Clear the marked slots of a component table.
pub open spec fn apply_hits<T>(s: Seq<Option<T>>, hits: Seq<bool>) -> Seq<Option<T>> {
    Seq::new(
        s.len(),
        |i: int|
            if 0 <= i < hits.len() && hits[i] {
                Option::None
            } else {
                s[i]
            },
    )
}

/// Fourth stage of a tick: advance all in-flight spells, then remove the
/// expired ones from the store.
pub open spec fn tick_spells(m: WorldM) -> WorldM {
    let falses = Seq::new(m.objects.len(), |i: int| false);
    let r = spells_pass(m.objects, m.spells, falses, m.player_id as int, 0);
    WorldM { objects: apply_hits(r.0, r.2), spells: apply_hits(r.1, r.2), ..m }
}

/// One whole fixed tick.
pub open spec fn tick_spec(m: WorldM) -> WorldM {
    let aim_from = m.objects[m.player_id as int].unwrap().pos;
    tick_spells(tick_cast(tick_push_elements(tick_move_player(m)), aim_from))
}

/// A motionless box entity.
pub open spec fn fixed_box(px: i64, py: i64, hx: i64, hy: i64) -> Object {
    Object {
        pos: Vector { x: px, y: py },
        vel: Vector { x: 0, y: 0 },
        shape: Shape::Aabb(Vector { x: hx, y: hy }),
    }
}

/// The fixed startup layout: the player's box above a small platform,
/// four walls closing the arena and three floating platforms.
pub open spec fn initial_world() -> WorldM {
    WorldM {
        player_id: 0,
        ground_ids: seq![1usize, 2, 3, 4, 5, 6, 7],
        total_ids: 8,
        objects: seq![
            Option::Some(fixed_box(0, 5_000, 500, 1_000)),
            Option::Some(fixed_box(0, 15_000, 15_000, 5_000)),
            Option::Some(fixed_box(0, -15_000i64, 15_000, 5_000)),
            Option::Some(fixed_box(15_000, 0, 5_000, 15_000)),
            Option::Some(fixed_box(-15_000i64, 0, 5_000, 15_000)),
            Option::Some(fixed_box(5_000, 2_000, 2_000, 500)),
            Option::Some(fixed_box(0, -2_000i64, 2_000, 500)),
            Option::Some(fixed_box(-5_000i64, -6_000i64, 2_000, 500)),
        ],
        colors: seq![
            Option::Some(Color { r: 0, g: 0, b: 1000 }),
            Option::Some(Color { r: 0, g: 0, b: 0 }),
            Option::Some(Color { r: 0, g: 0, b: 0 }),
            Option::Some(Color { r: 0, g: 0, b: 0 }),
            Option::Some(Color { r: 0, g: 0, b: 0 }),
            Option::Some(Color { r: 0, g: 0, b: 0 }),
            Option::Some(Color { r: 0, g: 0, b: 0 }),
            Option::Some(Color { r: 0, g: 0, b: 0 }),
        ],
        spells: seq![
            Option::None,
            Option::None,
            Option::None,
            Option::None,
            Option::None,
            Option::None,
            Option::None,
            Option::None,
        ],
        elements: Seq::empty(),
        buttons: Seq::new(BUTTON_COUNT as nat, |i: int| ButtonState::NotHeld),
        mouse: Vector { x: 0, y: 0 },
    }
}

/// Bound on stored positions when the spell pass begins: one player move
/// from the stored bound.
pub const STAGE_POS: i64 = 0x400_0000_0000;

/// An entity as the spell pass needs it: a box whose position is within
/// `pb` and whose half-extents are within the stored-geometry bound.
pub open spec fn stage_obj_ok(o: Object, pb: int) -> bool {
    &&& o.shape is Aabb
    &&& vec_bounded(o.pos, pb)
    &&& vec_bounded(aabb_half(o.shape), GEOM_LIMIT as int)
}

/// The exec twin of [`element_order`] indexing.
fn element_of(i: usize) -> (r: Element)
    requires
        i < 10,
    ensures
        r == element_order()[i as int],
{
    let r = match i {
        0 => Element::Earth,
        1 => Element::Water,
        2 => Element::Air,
        3 => Element::Fire,
        4 => Element::Acid,
        5 => Element::Pressure,
        6 => Element::Shock,
        7 => Element::Radiance,
        8 => Element::Life,
        _ => Element::Void,
    };
    proof {
        assert(element_order().len() == 10);
    }
    r
}

/// Whether a probe from `pos` by `dir` hits any collider of the list.
fn probe_any(pos: Vector, dir: Vector, grounds: &Vec<Object>) -> (r: bool)
    requires
        vec_bounded(pos, SIM_LIMIT as int),
        vec_bounded(dir, GEOM_LIMIT as int),
        forall|i: int| 0 <= i < grounds@.len() ==> collider_ok(#[trigger] grounds@[i]),
    ensures
        r == probe_hits(pos, dir, grounds@),
{
    let n = grounds.len();
    let mut i: usize = 0;
    while i < n
        invariant
            i <= n,
            n == grounds@.len(),
            vec_bounded(pos, SIM_LIMIT as int),
            vec_bounded(dir, GEOM_LIMIT as int),
            forall|k: int| 0 <= k < grounds@.len() ==> collider_ok(#[trigger] grounds@[k]),
            forall|j: int|
                0 <= j < i ==> !seg_hits_box(
                    pos,
                    dir,
                    (#[trigger] grounds@[j]).pos,
                    aabb_half(grounds@[j].shape),
                ),
        decreases n - i,
    {
        let g = &grounds[i];
        let gh = match g.shape {
            Shape::Aabb(h) => h,
            Shape::Line(d) => d,
        };
        if crate::object::segment_hits_box(pos, dir, g.pos, gh) {
            return true;
        }
        i = i + 1;
    }
    false
}

/// One component of a projectile's launch velocity.
fn spell_vel_comp(d: i64, speed: i64) -> (r: i64)
    requires
        -FX_ONE <= d <= FX_ONE,
        speed >= 0,
    ensures
        r == spell_vel_component(d as int, speed as int),
{
    let m1 = fx_mul(d, BASE_SPELL_SPEED);
    proof {
        crate::vector::lemma_div_trunc_mag(d * BASE_SPELL_SPEED, FX_ONE as int);
        assert(iabs(d * BASE_SPELL_SPEED) <= FX_ONE * BASE_SPELL_SPEED) by (nonlinear_arith)
            requires
                -FX_ONE <= d <= FX_ONE,
        ;
        assert(iabs(fx_mul_spec(d as int, BASE_SPELL_SPEED as int)) <= BASE_SPELL_SPEED as int)
            by (nonlinear_arith)
            requires
                iabs(div_trunc(d * BASE_SPELL_SPEED, FX_ONE as int)) * FX_ONE <= iabs(
                    d * BASE_SPELL_SPEED,
                ),
                iabs(d * BASE_SPELL_SPEED) <= FX_ONE * BASE_SPELL_SPEED,
                FX_ONE > 0,
                fx_mul_spec(d as int, BASE_SPELL_SPEED as int) == div_trunc(
                    d * BASE_SPELL_SPEED,
                    FX_ONE as int,
                ),
        ;
    }
    if m1 >= 0 {
        proof {
            assert((m1 as u128) * (speed as u128) == (m1 * speed) as u128 && m1 * speed >= 0)
                by (nonlinear_arith)
                requires
                    0 <= m1,
                    0 <= speed,
            ;
        }
        let p: u128 = (m1 as u128) * (speed as u128) / (FX_ONE as u128);
        if p > SPELL_VEL_CAP as u128 {
            SPELL_VEL_CAP
        } else {
            p as i64
        }
    } else {
        proof {
            assert(((-m1) as u128) * (speed as u128) == ((-m1) * speed) as u128 && (-m1) * speed
                >= 0 && (-m1) * speed == -(m1 * speed)) by (nonlinear_arith)
                requires
                    0 <= -m1,
                    0 <= speed,
            ;
        }
        let p: u128 = ((-m1) as u128) * (speed as u128) / (FX_ONE as u128);
        if p > SPELL_VEL_CAP as u128 {
            -SPELL_VEL_CAP
        } else {
            -(p as i64)
        }
    }
}

impl World {
    /// The static ground entities, in list order.
    fn gather_grounds(&self) -> (g: Vec<Object>)
        requires
            world_wf(self.m()),
        ensures
            g@ == grounds_of(self.m()),
            forall|i: int| 0 <= i < g@.len() ==> world_obj_ok(#[trigger] g@[i]),
    {
        let mut g: Vec<Object> = Vec::new();
        let n = self.ground_ids.len();
        let mut i: usize = 0;
        while i < n
            invariant
                i <= n,
                n == self.ground_ids@.len(),
                world_wf(self.m()),
                g@.len() == i,
                forall|j: int|
                    0 <= j < i ==> #[trigger] g@[j] == self.m().objects[self.m().ground_ids[j] as int].unwrap(),
                forall|j: int| 0 <= j < i ==> world_obj_ok(#[trigger] g@[j]),
            decreases n - i,
        {
            let id = self.ground_ids[i];
            match &self.objects[id] {
                Option::Some(o) => {
                    g.push(*o);
                },
                Option::None => {
                    proof {
                        assert(false);
                    }
                },
            }
            i = i + 1;
        }
        proof {
            assert(g@ =~= grounds_of(self.m()));
        }
        g
    }

    /// A world in the fixed startup layout.
    pub fn new() -> (r: World)
        ensures
            r.m() == initial_world(),
            world_wf(r.m()),
    {
        let mut objects: Vec<Option<Object>> = Vec::new();
        objects.push(Option::Some(Object::new(0, 5_000, Shape::Aabb(Vector { x: 500, y: 1_000 }))));
        objects.push(
            Option::Some(Object::new(0, 15_000, Shape::Aabb(Vector { x: 15_000, y: 5_000 }))),
        );
        objects.push(
            Option::Some(Object::new(0, -15_000, Shape::Aabb(Vector { x: 15_000, y: 5_000 }))),
        );
        objects.push(
            Option::Some(Object::new(15_000, 0, Shape::Aabb(Vector { x: 5_000, y: 15_000 }))),
        );
        objects.push(
            Option::Some(Object::new(-15_000, 0, Shape::Aabb(Vector { x: 5_000, y: 15_000 }))),
        );
        objects.push(
            Option::Some(Object::new(5_000, 2_000, Shape::Aabb(Vector { x: 2_000, y: 500 }))),
        );
        objects.push(
            Option::Some(Object::new(0, -2_000, Shape::Aabb(Vector { x: 2_000, y: 500 }))),
        );
        objects.push(
            Option::Some(Object::new(-5_000, -6_000, Shape::Aabb(Vector { x: 2_000, y: 500 }))),
        );
        let mut colors: Vec<Option<Color>> = Vec::new();
        colors.push(Option::Some(Color { r: 0, g: 0, b: 1000 }));
        let mut i: usize = 0;
        while i < 7
            invariant
                i <= 7,
                colors@.len() == i + 1,
                colors@[0] == Option::Some(Color { r: 0u16, g: 0u16, b: 1000u16 }),
                forall|j: int|
                    1 <= j <= i ==> colors@[j] == Option::Some(
                        Color { r: 0u16, g: 0u16, b: 0u16 },
                    ),
            decreases 7 - i,
        {
            colors.push(Option::Some(Color { r: 0, g: 0, b: 0 }));
            i = i + 1;
        }
        let mut spells: Vec<Option<Spell>> = Vec::new();
        let mut k: usize = 0;
        while k < 8
            invariant
                k <= 8,
                spells@.len() == k,
                forall|j: int| 0 <= j < k ==> spells@[j] == Option::None::<Spell>,
            decreases 8 - k,
        {
            spells.push(Option::None);
            k = k + 1;
        }
        let mut ground_ids: Vec<usize> = Vec::new();
        ground_ids.push(1);
        ground_ids.push(2);
        ground_ids.push(3);
        ground_ids.push(4);
        ground_ids.push(5);
        ground_ids.push(6);
        ground_ids.push(7);
        let w = World {
            player_id: 0,
            ground_ids,
            total_ids: 8,
            objects,
            colors,
            spells,
            elements: Vec::new(),
            input: InputState::new(),
            mouse: Vector { x: 0, y: 0 },
        };
        proof {
            assert(w.m().colors =~= initial_world().colors);
            assert(w.m().spells =~= initial_world().spells);
            assert(w.m().buttons =~= initial_world().buttons);
            assert(w.m() =~= initial_world());
            assert(world_wf(w.m()));
        }
        w
    }

    /// Advance every in-flight spell in id order and remove the expired
    /// ones at the end of the pass.
    fn run_spell_pass(&mut self)
        requires
            old(self).m().objects.len() == old(self).m().spells.len(),
            old(self).m().objects.len() <= MAX_ENTITIES + 1,
            forall|i: int|
                0 <= i < old(self).m().objects.len() && old(self).m().objects[i] is Some
                    ==> stage_obj_ok((#[trigger] old(self).m().objects[i]).unwrap(), STAGE_POS as int),
            forall|i: int|
                0 <= i < old(self).m().spells.len() && old(self).m().spells[i] is Some ==> old(
                    self,
                ).m().objects[i] is Some && spell_wf((#[trigger] old(self).m().spells[i]).unwrap())
                    && vec_bounded(old(self).m().objects[i].unwrap().vel, VEL_LIMIT as int),
        ensures
            ({
                let falses = Seq::new(old(self).m().objects.len(), |i: int| false);
                let r = spells_pass(
                    old(self).m().objects,
                    old(self).m().spells,
                    falses,
                    old(self).m().player_id as int,
                    0,
                );
                final(self).m() == (WorldM {
                    objects: apply_hits(r.0, r.2),
                    spells: apply_hits(r.1, r.2),
                    ..old(self).m()
                })
            }),
    {
        let n = self.objects.len();
        let player = self.player_id;
        let ghost o0 = self.objects@;
        let ghost s0 = self.spells@;
        let ghost pl = self.player_id as int;
        let mut hits: Vec<bool> = Vec::new();
        let mut t: usize = 0;
        while t < n
            invariant
                t <= n,
                hits@.len() == t,
                forall|j: int| 0 <= j < t ==> !(#[trigger] hits@[j]),
            decreases n - t,
        {
            hits.push(false);
            t = t + 1;
        }
        let ghost h0 = Seq::new(n as nat, |i: int| false);
        proof {
            assert(hits@ =~= h0);
        }
        let mut id: usize = 0;
        while id < n
            invariant
                id <= n,
                n == self.objects@.len(),
                n == self.spells@.len(),
                n == hits@.len(),
                n <= MAX_ENTITIES + 1,
                player == old(self).player_id,
                pl == player as int,
                o0 == old(self).m().objects,
                s0 == old(self).m().spells,
                self.player_id == old(self).player_id,
                self.ground_ids@ == old(self).ground_ids@,
                self.total_ids == old(self).total_ids,
                self.colors@ == old(self).colors@,
                self.elements@ == old(self).elements@,
                self.input == old(self).input,
                self.mouse == old(self).mouse,
                forall|j: int|
                    0 <= j < n && self.objects@[j] is Some ==> stage_obj_ok(
                        (#[trigger] self.objects@[j]).unwrap(),
                        STAGE_POS + (id + 1) * (VEL_LIMIT as int),
                    ),
                forall|j: int|
                    id <= j < n && self.spells@[j] is Some ==> self.objects@[j] is Some
                        && spell_wf((#[trigger] self.spells@[j]).unwrap()) && vec_bounded(
                        self.objects@[j].unwrap().vel,
                        VEL_LIMIT as int,
                    ),
                spells_pass(o0, s0, h0, pl, 0) == spells_pass(
                    self.objects@,
                    self.spells@,
                    hits@,
                    pl,
                    id as int,
                ),
            decreases n - id,
        {
            let ghost o_cur = self.objects@;
            let ghost s_cur = self.spells@;
            let ghost h_cur = hits@;
            let ghost b_id = STAGE_POS + (id + 1) * (VEL_LIMIT as int);
            proof {
                assert((id + 1) * (VEL_LIMIT as int) <= 0x2_0002 * (VEL_LIMIT as int))
                    by (nonlinear_arith)
                    requires
                        0 <= id + 1 <= 0x2_0002,
                        VEL_LIMIT == 0x200_0000_0000,
                ;
                assert((id + 2) * (VEL_LIMIT as int) <= 0x2_0003 * (VEL_LIMIT as int))
                    by (nonlinear_arith)
                    requires
                        0 <= id + 2 <= 0x2_0003,
                        VEL_LIMIT == 0x200_0000_0000,
                ;
                assert((id + 2) * (VEL_LIMIT as int) == (id + 1) * (VEL_LIMIT as int)
                    + VEL_LIMIT as int) by (nonlinear_arith);
            }
            let spell_opt = self.spells[id];
            match spell_opt {
                Option::None => {
                    proof {
                        assert(spells_pass(self.objects@, self.spells@, hits@, pl, id as int)
                            == spells_pass(self.objects@, self.spells@, hits@, pl, id + 1int));
                    }
                },
                Option::Some(stats) => {
                    let mover = match self.objects[id] {
                        Option::Some(o) => o,
                        Option::None => {
                            proof {
                                assert(false);
                            }
                            Object::new(0, 0, Shape::Aabb(Vector { x: 0, y: 0 }))
                        },
                    };
                    // collider list: everything but the caster and the mover
                    let mut cs: Vec<Object> = Vec::new();
                    let mut j: usize = 0;
                    proof {
                        assert(cs@ + colliders_from(self.objects@, pl, id as int, 0)
                            =~= colliders_from(self.objects@, pl, id as int, 0));
                    }
                    while j < n
                        invariant
                            j <= n,
                            n == self.objects@.len(),
                            pl == player as int,
                            self.objects@ == o_cur,
                            forall|k: int|
                                0 <= k < n && self.objects@[k] is Some ==> stage_obj_ok(
                                    (#[trigger] self.objects@[k]).unwrap(),
                                    b_id,
                                ),
                            b_id == STAGE_POS + (id + 1) * (VEL_LIMIT as int),
                            b_id <= SIM_LIMIT,
                            colliders_from(self.objects@, pl, id as int, 0) == cs@
                                + colliders_from(self.objects@, pl, id as int, j as int),
                            forall|k: int|
                                0 <= k < cs@.len() ==> collider_ok(#[trigger] cs@[k])
                                    && vec_bounded(cs@[k].pos, b_id) && vec_bounded(
                                    aabb_half(cs@[k].shape),
                                    GEOM_LIMIT as int,
                                ),
                        decreases n - j,
                    {
                        let ghost cs_before = cs@;
                        if j != player && j != id {
                            match &self.objects[j] {
                                Option::Some(o) => {
                                    cs.push(*o);
                                },
                                Option::None => {},
                            }
                        }
                        proof {
                            let rest = colliders_from(self.objects@, pl, id as int, j + 1int);
                            if j as int != pl && j as int != id && self.objects@[j as int]
                                is Some {
                                let oj = self.objects@[j as int].unwrap();
                                assert(colliders_from(self.objects@, pl, id as int, j as int)
                                    == seq![oj] + rest);
                                assert(cs@ =~= cs_before + seq![oj]);
                                assert(cs_before + (seq![oj] + rest) =~= (cs_before + seq![oj])
                                    + rest);
                            } else {
                                assert(colliders_from(self.objects@, pl, id as int, j as int)
                                    == rest);
                            }
                        }
                        j = j + 1;
                    }
                    proof {
                        assert(colliders_from(self.objects@, pl, id as int, n as int)
                            =~= Seq::<Object>::empty());
                        assert(cs@ + Seq::<Object>::empty() =~= cs@);
                        assert(cs@ == colliders_from(self.objects@, pl, id as int, 0));
                    }
                    let mut moved = mover;
                    let collided = moved.move_and_collide(&cs, DT);
                    let expired = stats.is_expired(collided);
                    proof {
                        // the resolved position stays within one velocity step
                        crate::object::lemma_integrate_bound(mover.vel.x as int, DT as int);
                        crate::object::lemma_integrate_bound(mover.vel.y as int, DT as int);
                        crate::object::lemma_resolve_bounded(
                            crate::object::integrate(mover.pos, mover.vel, DT as int),
                            aabb_half(mover.shape),
                            cs@,
                            crate::object::MAX_RESOLVE_PASSES as nat,
                            b_id + VEL_LIMIT as int,
                            b_id,
                        );
                        assert(vec_bounded(moved.pos, b_id + VEL_LIMIT as int));
                    }
                    if expired {
                        self.objects.set(id, Option::Some(moved));
                        hits.set(id, true);
                    } else {
                        let delta = moved.pos.sub(mover.pos);
                        let dlen = delta.length();
                        let dist = crate::fixed::sat_add(stats.distance_traveled, dlen);
                        let g = fx_mul(GRAVITY, DT);
                        let newvel = Vector { x: moved.vel.x, y: moved.vel.y - g };
                        self.objects.set(
                            id,
                            Option::Some(Object { pos: moved.pos, vel: newvel, shape: moved.shape }),
                        );
                        let mut st2 = stats;
                        st2.distance_traveled = dist;
                        self.spells.set(id, Option::Some(st2));
                        hits.set(id, false);
                    }
                    proof {
                        let st = spell_step(o_cur, s_cur, pl, id as int);
                        assert(st.0 =~= self.objects@);
                        assert(st.1 =~= self.spells@);
                        assert(st.2 == expired);
                        assert(hits@ =~= h_cur.update(id as int, st.2));
                        assert(spells_pass(o_cur, s_cur, h_cur, pl, id as int) == spells_pass(
                            self.objects@,
                            self.spells@,
                            hits@,
                            pl,
                            id + 1int,
                        ));
                    }
                },
            }
            id = id + 1;
        }
        // deferred removal of the expired spells
        proof {
            assert(spells_pass(self.objects@, self.spells@, hits@, pl, n as int) == (
                self.objects@,
                self.spells@,
                hits@,
            ));
        }
        let ghost o_mid = self.objects@;
        let ghost s_mid = self.spells@;
        let ghost h_mid = hits@;
        let mut r: usize = 0;
        while r < n
            invariant
                r <= n,
                n == self.objects@.len(),
                n == self.spells@.len(),
                n == hits@.len(),
                hits@ == h_mid,
                self.player_id == old(self).player_id,
                self.ground_ids@ == old(self).ground_ids@,
                self.total_ids == old(self).total_ids,
                self.colors@ == old(self).colors@,
                self.elements@ == old(self).elements@,
                self.input == old(self).input,
                self.mouse == old(self).mouse,
                o_mid.len() == n,
                s_mid.len() == n,
                forall|k: int|
                    0 <= k < r ==> #[trigger] self.objects@[k] == apply_hits(o_mid, h_mid)[k],
                forall|k: int|
                    0 <= k < r ==> #[trigger] self.spells@[k] == apply_hits(s_mid, h_mid)[k],
                forall|k: int| r <= k < n ==> #[trigger] self.objects@[k] == o_mid[k],
                forall|k: int| r <= k < n ==> #[trigger] self.spells@[k] == s_mid[k],
            decreases n - r,
        {
            let ghost ob = self.objects@;
            let ghost sb = self.spells@;
            if hits[r] {
                self.objects.set(r, Option::None);
                self.spells.set(r, Option::None);
            }
            proof {
                assert forall|k: int|
                    0 <= k <= r implies #[trigger] self.objects@[k] == apply_hits(o_mid, h_mid)[k]
                        && self.spells@[k] == apply_hits(s_mid, h_mid)[k] by {
                    if 0 <= k < r {
                        assert(ob[k] == apply_hits(o_mid, h_mid)[k]);
                        assert(sb[k] == apply_hits(s_mid, h_mid)[k]);
                        assert(self.objects@[k] == ob[k]);
                        assert(self.spells@[k] == sb[k]);
                    } else if k == r {
                        assert(ob[k] == o_mid[k]);
                        assert(sb[k] == s_mid[k]);
                        assert(self.objects@[r as int] == apply_hits(o_mid, h_mid)[r as int]);
                        assert(self.spells@[r as int] == apply_hits(s_mid, h_mid)[r as int]);
                    }
                }
                assert forall|k: int|
                    r < k < n implies #[trigger] self.objects@[k] == o_mid[k] && self.spells@[k]
                        == s_mid[k] by {
                    assert(self.objects@[k] == ob[k]);
                    assert(self.spells@[k] == sb[k]);
                    assert(ob[k] == o_mid[k]);
                    assert(sb[k] == s_mid[k]);
                }
            }
            r = r + 1;
        }
        proof {
            assert(self.objects@ =~= apply_hits(o_mid, h_mid));
            assert(self.spells@ =~= apply_hits(s_mid, h_mid));
            assert(self.m() =~= (WorldM {
                objects: apply_hits(o_mid, h_mid),
                spells: apply_hits(s_mid, h_mid),
                ..old(self).m()
            }));
        }
    }

    /// Poll the ten selection buttons in order, consuming each unread
    /// press edge and appending its element to the pending queue.
    fn poll_elements(&mut self)
        requires
            input_wf(old(self).input),
        ensures
            input_wf(final(self).input),
            ({
                let r = push_elements_from(old(self).m().buttons, old(self).m().elements, 0);
                final(self).m() == (WorldM { buttons: r.0, elements: r.1, ..old(self).m() })
            }),
    {
        let ghost b0 = self.input.states@;
        let ghost e0 = self.elements@;
        let mut i: usize = 0;
        while i < 10
            invariant
                i <= 10,
                input_wf(self.input),
                self.player_id == old(self).player_id,
                self.ground_ids@ == old(self).ground_ids@,
                self.total_ids == old(self).total_ids,
                self.objects@ == old(self).objects@,
                self.colors@ == old(self).colors@,
                self.spells@ == old(self).spells@,
                self.mouse == old(self).mouse,
                b0 == old(self).m().buttons,
                e0 == old(self).m().elements,
                push_elements_from(b0, e0, 0) == push_elements_from(
                    self.input.states@,
                    self.elements@,
                    i as int,
                ),
            decreases 10 - i,
        {
            let ghost b_cur = self.input.states@;
            let ghost e_cur = self.elements@;
            let e = element_of(i);
            if self.input.is_button_pressed(Button::Select(e)) {
                self.elements.push(e);
            }
            proof {
                assert(push_elements_from(b_cur, e_cur, i as int) == push_elements_from(
                    self.input.states@,
                    self.elements@,
                    i + 1int,
                ));
            }
            i = i + 1;
        }
        proof {
            assert(self.m() =~= (WorldM {
                buttons: push_elements_from(b0, e0, 0).0,
                elements: push_elements_from(b0, e0, 0).1,
                ..old(self).m()
            }));
        }
    }

    /// Run one fixed tick: decide the player's velocity from the inputs
    /// and the contact probes, move the player, collect newly selected
    /// elements, cast a pending spell toward the pointer, and advance
    /// every in-flight spell.  The whole effect is [`tick_spec`].
    pub fn update(&mut self)
        requires
            world_wf(old(self).m()),
        ensures
            final(self).m() == tick_spec(old(self).m()),
    {
        let ghost m0 = old(self).m();
        // player movement
        let player = match self.objects[self.player_id] {
            Option::Some(p) => p,
            Option::None => {
                proof {
                    assert(false);
                }
                Object::new(0, 0, Shape::Aabb(Vector { x: 0, y: 0 }))
            },
        };
        let vx: i64 = if self.input.is_button_held(Button::MoveLeft) {
            -MOVE_SPEED
        } else if self.input.is_button_held(Button::MoveRight) {
            MOVE_SPEED
        } else {
            0
        };
        let grounds = self.gather_grounds();
        proof {
            assert(forall|i: int|
                0 <= i < grounds@.len() ==> collider_ok(#[trigger] grounds@[i]));
        }
        let on_ceiling = probe_any(player.pos, Vector { x: 0, y: GROUND_PROBE }, &grounds);
        let on_ground = probe_any(player.pos, Vector { x: 0, y: -GROUND_PROBE }, &grounds);
        self.colors.set(
            self.player_id,
            Option::Some(
                if on_ground {
                    Color { r: 0, g: 1000, b: 0 }
                } else if on_ceiling {
                    Color { r: 1000, g: 0, b: 0 }
                } else {
                    Color { r: 0, g: 0, b: 1000 }
                },
            ),
        );
        let jump = self.input.is_button_pressed(Button::Jump);
        let g = fx_mul(GRAVITY, DT);
        let vy: i64 = if jump && on_ground {
            JUMP_SPEED
        } else if on_ground {
            0
        } else if on_ceiling {
            CEILING_BOUNCE
        } else {
            player.vel.y - g
        };
        let mut mover = Object { pos: player.pos, vel: Vector { x: vx, y: vy }, shape: player.shape };
        let _collided = mover.move_and_collide(&grounds, DT);
        proof {
            crate::object::lemma_integrate_bound(vx as int, DT as int);
            crate::object::lemma_integrate_bound(vy as int, DT as int);
            crate::object::lemma_resolve_bounded(
                crate::object::integrate(player.pos, Vector { x: vx, y: vy }, DT as int),
                aabb_half(player.shape),
                grounds@,
                crate::object::MAX_RESOLVE_PASSES as nat,
                WORLD_LIMIT as int + VEL_LIMIT as int,
                WORLD_LIMIT as int,
            );
            assert(vec_bounded(mover.pos, STAGE_POS as int));
        }
        self.objects.set(self.player_id, Option::Some(mover));
        let ghost m1 = tick_move_player(m0);
        proof {
            assert(self.m() =~= m1);
        }
        // newly selected elements
        self.poll_elements();
        let ghost m2 = tick_push_elements(m1);
        proof {
            assert(self.m() =~= m2);
        }
        // casting
        let cast = self.input.is_button_pressed(Button::Cast);
        if cast {
            let aim = Vector { x: self.mouse.x - player.pos.x, y: self.mouse.y - player.pos.y };
            match aim.normalized() {
                Option::None => {},
                Option::Some(dir) => {
                    if self.elements.len() > 0 {
                        let stats = Spell::new(&self.elements);
                        let velx = spell_vel_comp(dir.x, stats.speed);
                        let vely = spell_vel_comp(dir.y, stats.speed);
                        self.total_ids = self.total_ids + 1;
                        self.objects.push(
                            Option::Some(
                                Object {
                                    pos: player.pos,
                                    vel: Vector { x: velx, y: vely },
                                    shape: Shape::Aabb(
                                        Vector { x: SPELL_HALF_EXTENT, y: SPELL_HALF_EXTENT },
                                    ),
                                },
                            ),
                        );
                        self.colors.push(Option::None);
                        self.spells.push(Option::Some(stats));
                        self.elements = Vec::new();
                    }
                },
            }
        }
        let ghost m3 = tick_cast(m2, player.pos);
        proof {
            assert(self.m() =~= m3);
        }
        // in-flight spells
        proof {
            assert forall|i: int|
                0 <= i < self.m().objects.len() && self.m().objects[i] is Some implies
                stage_obj_ok((#[trigger] self.m().objects[i]).unwrap(), STAGE_POS as int) by {
                if i != m0.player_id as int && i < m0.objects.len() {
                    assert(self.m().objects[i] == m0.objects[i]);
                    assert(world_obj_ok(m0.objects[i].unwrap()));
                }
            }
            assert forall|i: int|
                0 <= i < self.m().spells.len() && self.m().spells[i] is Some implies self.m().objects[i] is Some
                    && spell_wf((#[trigger] self.m().spells[i]).unwrap()) && vec_bounded(
                    self.m().objects[i].unwrap().vel,
                    VEL_LIMIT as int,
                ) by {
                if i < m0.spells.len() {
                    assert(self.m().spells[i] == m0.spells[i]);
                    assert(i != m0.player_id as int);
                    assert(self.m().objects[i] == m0.objects[i]);
                    assert(world_obj_ok(m0.objects[i].unwrap()));
                }
            }
        }
        self.run_spell_pass();
        let ghost m4 = tick_spells(m3);
        proof {
            assert(self.m() =~= m4);
            assert(m4 == tick_spec(m0));
        }
    }

    /// Whether a button is currently held.
    pub fn is_button_held(&self, b: Button) -> (r: bool)
        requires
            input_wf(self.input),
        ensures
            r == held(self.m().buttons, b),
    {
        self.input.is_button_held(b)
    }

    /// Whether a button has an unread press edge; reading consumes it.
    pub fn is_button_pressed(&mut self, b: Button) -> (r: bool)
        requires
            input_wf(old(self).input),
        ensures
            input_wf(final(self).input),
            r == pressed_now(old(self).m().buttons, b),
            final(self).m() == (WorldM {
                buttons: consumed_state(old(self).m().buttons, b),
                ..old(self).m()
            }),
    {
        let r = self.input.is_button_pressed(b);
        proof {
            assert(self.m() =~= (WorldM {
                buttons: consumed_state(old(self).m().buttons, b),
                ..old(self).m()
            }));
        }
        r
    }

    /// Feed one raw press/release edge for a button.
    pub fn update_button(&mut self, b: Button, pressed: bool)
        requires
            input_wf(old(self).input),
        ensures
            input_wf(final(self).input),
            final(self).m() == (WorldM {
                buttons: old(self).m().buttons.update(
                    button_index(b),
                    if pressed {
                        on_press(state_of(old(self).input, b))
                    } else {
                        on_release(state_of(old(self).input, b))
                    },
                ),
                ..old(self).m()
            }),
    {
        self.input.update_button(b, pressed);
        proof {
            assert(self.m() =~= (WorldM {
                buttons: old(self).m().buttons.update(
                    button_index(b),
                    if pressed {
                        on_press(state_of(old(self).input, b))
                    } else {
                        on_release(state_of(old(self).input, b))
                    },
                ),
                ..old(self).m()
            }));
        }
    }
}

} // verus!
