//! Collision geometry and the motion resolver.
//!
//! An [`Object`] is a kinematic body: a position, a velocity and a shape.
//! Shapes are either axis-aligned boxes (held as half-extents around the
//! owner's position) or directed probe segments (held as the offset from
//! the owner's position to the probe's endpoint).  Boxes overlap only when
//! both axis intervals overlap strictly, so exact edge contact never
//! counts as a collision.
//!
//! [`Object::move_and_collide`] integrates the velocity over one step and
//! then pushes the mover out of every overlapping box collider along the
//! axis of minimum penetration, rescanning from the start of the collider
//! list after each correction, until either no collider overlaps or a
//! fixed pass budget is exhausted (the budget accepts residual
//! penetration on pathological, mutually overlapping geometry).

use vstd::prelude::*;
use crate::fixed::{div_trunc, fx_mul, fx_mul_spec, iabs, FX_ONE, GEOM_LIMIT};
use crate::vector::{vec_bounded, Vector};

verus! {

/// Bound on every position the simulation ever stores or computes: wide
/// enough that a whole tick of integration and push-out stays in `i64`.
pub const SIM_LIMIT: i64 = 0x1000_0000_0000_0000;

/// Bound on the velocity of a mover for one step.
pub const VEL_LIMIT: i64 = 0x200_0000_0000;

/// Bound on mover positions while penetration is being resolved: one
/// integration step moves at most `VEL_LIMIT`, and every push-out lands
/// on a collider's edge.
pub const RESOLVE_LIMIT: i64 = SIM_LIMIT + VEL_LIMIT;

/// Cap on push-out passes in one `move_and_collide` call.  The fixed-point
/// iteration has no natural bound when static colliders themselves
/// overlap; after this many corrections residual penetration is accepted.
pub const MAX_RESOLVE_PASSES: u64 = 64;

#[derive(Clone, Copy, Debug, PartialEq, Eq, Structural)]
pub enum Shape {
    /// Axis-aligned box; the vector holds the half-extents.
    Aabb(Vector),
    /// Directed probe segment; the vector is the offset of the endpoint.
    Line(Vector),
}

#[derive(Clone, Copy, Debug, PartialEq, Eq, Structural)]
pub struct Object {
    pub pos: Vector,
    pub vel: Vector,
    pub shape: Shape,
}

/// Half-extent vector of a box shape (garbage for probe segments).
pub open spec fn aabb_half(s: Shape) -> Vector {
    match s {
        Shape::Aabb(h) => h,
        Shape::Line(d) => d,
    }
}

/// A box-shaped object that can be collided against: its position is in
/// the simulation range and its half-extents in the stored-geometry range.
pub open spec fn collider_ok(o: Object) -> bool {
    &&& o.shape is Aabb
    &&& vec_bounded(o.pos, SIM_LIMIT as int)
    &&& vec_bounded(aabb_half(o.shape), GEOM_LIMIT as int)
}

/// A box-shaped object that can be moved for one step.
pub open spec fn mover_ok(o: Object) -> bool {
    &&& collider_ok(o)
    &&& vec_bounded(o.vel, VEL_LIMIT as int)
}

/// Strict overlap of two axis-aligned boxes given by center and
/// half-extents: the axis intervals must overlap strictly on both axes,
/// so boxes in exact edge contact do not overlap.
pub open spec fn boxes_overlap(pa: Vector, ha: Vector, pb: Vector, hb: Vector) -> bool {
    &&& pa.x - ha.x < pb.x + hb.x
    &&& pa.x + ha.x > pb.x - hb.x
    &&& pa.y - ha.y < pb.y + hb.y
    &&& pa.y + ha.y > pb.y - hb.y
}

/// Point strictly inside a box given by center and half-extents.
pub open spec fn point_in_box(p: Vector, bpos: Vector, bhalf: Vector) -> bool {
    &&& bpos.x - bhalf.x < p.x < bpos.x + bhalf.x
    &&& bpos.y - bhalf.y < p.y < bpos.y + bhalf.y
}

/// One axis of the slab test for a probe from `p` by offset `d` against
/// the interval `[lo, hi]`.  For `d != 0` the slab interval along the
/// probe is `[min(t0,t1), max(t0,t1)]` with `t0 = (lo-p)/d`,
/// `t1 = (hi-p)/d`, and the test `tmin <= 1 <= tmax` is exactly
/// `lo <= p + d <= hi`.  For an axis-parallel probe (`d == 0`) the slab
/// degenerates and the probe hits only if it lies strictly inside the
/// interval.
pub open spec fn axis_hits(p: int, d: int, lo: int, hi: int) -> bool {
    if d == 0 {
        lo < p < hi
    } else {
        lo <= p + d <= hi
    }
}

/// Exact slab test: the probe from `pos` by offset `dir`, restricted to
/// its own length, hits the box given by center and half-extents.  A
/// zero-length probe degenerates to the strict point-in-box test.
pub open spec fn seg_hits_box(pos: Vector, dir: Vector, bpos: Vector, bhalf: Vector) -> bool {
    &&& axis_hits(pos.x as int, dir.x as int, bpos.x - bhalf.x, bpos.x + bhalf.x)
    &&& axis_hits(pos.y as int, dir.y as int, bpos.y - bhalf.y, bpos.y + bhalf.y)
}

/// Collision dispatch over the two shapes.  A probe segment is always the
/// probing side and never the struck side; two segments never collide.
pub open spec fn collide_spec(a: Object, b: Object) -> bool {
    match (a.shape, b.shape) {
        (Shape::Aabb(ha), Shape::Aabb(hb)) => boxes_overlap(a.pos, ha, b.pos, hb),
        (Shape::Line(d), Shape::Aabb(hb)) => seg_hits_box(a.pos, d, b.pos, hb),
        (Shape::Aabb(ha), Shape::Line(d)) => seg_hits_box(b.pos, d, a.pos, ha),
        (Shape::Line(_), Shape::Line(_)) => false,
    }
}

/// The mover box at `pos` with half-extents `half` overlaps collider `c`.
pub open spec fn overlaps_collider(pos: Vector, half: Vector, c: Object) -> bool {
    boxes_overlap(pos, half, c.pos, aabb_half(c.shape))
}

/// Index of the first collider at or after `i` that overlaps the mover,
/// or `cs.len()` if none does.
pub open spec fn first_overlap(pos: Vector, half: Vector, cs: Seq<Object>, i: int) -> int
    decreases cs.len() - i,
{
    if i < 0 || i >= cs.len() {
        cs.len() as int
    } else if overlaps_collider(pos, half, cs[i]) {
        i
    } else {
        first_overlap(pos, half, cs, i + 1)
    }
}

/// The four cardinal penetration depths and the chosen minimum-depth
/// translation, as `(dx, dy)`.  Ties resolve in the order push-up,
/// push-left, push-down, push-right.
pub open spec fn pushout_delta(pos: Vector, half: Vector, cpos: Vector, chalf: Vector) -> (
    int,
    int,
) {
    let up = iabs((pos.y - half.y) - (cpos.y + chalf.y));
    let left = iabs((pos.x + half.x) - (cpos.x - chalf.x));
    let down = iabs((pos.y + half.y) - (cpos.y - chalf.y));
    let right = iabs((pos.x - half.x) - (cpos.x + chalf.x));
    if up <= left && up <= down && up <= right {
        (0int, up)
    } else if left <= down && left <= right {
        (-left, 0int)
    } else if down <= right {
        (0int, -down)
    } else {
        (right, 0int)
    }
}

/// Position translated by a push-out delta.
pub open spec fn pushed(pos: Vector, delta: (int, int)) -> Vector {
    Vector { x: (pos.x + delta.0) as i64, y: (pos.y + delta.1) as i64 }
}

/// Fixed-point push-out iteration: while some collider overlaps, push the
/// mover out of the first one (in list order) along the minimum-depth
/// axis and rescan; stop once nothing overlaps or the fuel runs out.
/// Returns the final position and whether any correction occurred.
pub open spec fn resolve_spec(pos: Vector, half: Vector, cs: Seq<Object>, fuel: nat) -> (
    Vector,
    bool,
)
    decreases fuel,
{
    let k = first_overlap(pos, half, cs, 0);
    if k == cs.len() {
        (pos, false)
    } else if fuel == 0 {
        (pos, true)
    } else {
        let c = cs[k];
        let next = pushed(pos, pushout_delta(pos, half, c.pos, aabb_half(c.shape)));
        (resolve_spec(next, half, cs, (fuel - 1) as nat).0, true)
    }
}

/// Position after integrating a velocity over the fixed-point duration `dt`.
pub open spec fn integrate(pos: Vector, vel: Vector, dt: int) -> Vector {
    Vector {
        x: (pos.x + fx_mul_spec(vel.x as int, dt)) as i64,
        y: (pos.y + fx_mul_spec(vel.y as int, dt)) as i64,
    }
}

/// Full outcome of one `move_and_collide` step: integrate, then resolve.
pub open spec fn advance_spec(o: Object, cs: Seq<Object>, dt: int) -> (Vector, bool) {
    resolve_spec(
        integrate(o.pos, o.vel, dt),
        aabb_half(o.shape),
        cs,
        MAX_RESOLVE_PASSES as nat,
    )
}

/// All objects of a collider list are bounded boxes.
pub open spec fn colliders_bounded(cs: Seq<Object>) -> bool {
    forall|i: int| 0 <= i < cs.len() ==> collider_ok(#[trigger] cs[i])
}

/// Scaling a bounded value by a sub-second duration never grows it.
pub proof fn lemma_integrate_bound(v: int, dt: int)
    requires
        0 <= dt <= FX_ONE,
    ensures
        iabs(fx_mul_spec(v, dt)) <= iabs(v),
{
    crate::vector::lemma_div_trunc_mag(v * dt, FX_ONE as int);
    assert(iabs(v * dt) <= iabs(v) * FX_ONE) by (nonlinear_arith)
        requires
            0 <= dt <= FX_ONE,
    ;
    assert(iabs(div_trunc(v * dt, FX_ONE as int)) <= iabs(v)) by (nonlinear_arith)
        requires
            iabs(div_trunc(v * dt, FX_ONE as int)) * FX_ONE <= iabs(v * dt),
            iabs(v * dt) <= iabs(v) * FX_ONE,
            FX_ONE > 0,
    ;
}

/// Velocity component scaled by the duration `dt`, exactly
/// `fx_mul_spec` and never larger in magnitude than the component.
fn scale_by_dt(v: i64, dt: i64) -> (r: i64)
    requires
        -VEL_LIMIT <= v <= VEL_LIMIT,
        0 <= dt <= FX_ONE,
    ensures
        r == fx_mul_spec(v as int, dt as int),
        iabs(r as int) <= iabs(v as int),
{
    proof {
        assert(-0x4000_0000_0000_0000 <= v * dt <= 0x4000_0000_0000_0000) by (nonlinear_arith)
            requires
                -VEL_LIMIT <= v <= VEL_LIMIT,
                0 <= dt <= FX_ONE,
                VEL_LIMIT == 0x200_0000_0000,
                FX_ONE == 10_000,
        ;
        lemma_integrate_bound(v as int, dt as int);
    }
    fx_mul(v, dt)
}

/// Strict box-box overlap test.
fn overlap_boxes(pa: Vector, ha: Vector, pb: Vector, hb: Vector) -> (r: bool)
    requires
        vec_bounded(pa, RESOLVE_LIMIT as int),
        vec_bounded(ha, GEOM_LIMIT as int),
        vec_bounded(pb, RESOLVE_LIMIT as int),
        vec_bounded(hb, GEOM_LIMIT as int),
    ensures
        r == boxes_overlap(pa, ha, pb, hb),
{
    pa.x - ha.x < pb.x + hb.x && pa.x + ha.x > pb.x - hb.x && pa.y - ha.y < pb.y + hb.y && pa.y
        + ha.y > pb.y - hb.y
}

/// Exact slab test for a probe against a box given by center and
/// half-extents.
pub fn segment_hits_box(pos: Vector, dir: Vector, bpos: Vector, bhalf: Vector) -> (r: bool)
    requires
        vec_bounded(pos, RESOLVE_LIMIT as int),
        vec_bounded(dir, GEOM_LIMIT as int),
        vec_bounded(bpos, RESOLVE_LIMIT as int),
        vec_bounded(bhalf, GEOM_LIMIT as int),
    ensures
        r == seg_hits_box(pos, dir, bpos, bhalf),
{
    let x_ok = if dir.x == 0 {
        bpos.x - bhalf.x < pos.x && pos.x < bpos.x + bhalf.x
    } else {
        bpos.x - bhalf.x <= pos.x + dir.x && pos.x + dir.x <= bpos.x + bhalf.x
    };
    let y_ok = if dir.y == 0 {
        bpos.y - bhalf.y < pos.y && pos.y < bpos.y + bhalf.y
    } else {
        bpos.y - bhalf.y <= pos.y + dir.y && pos.y + dir.y <= bpos.y + bhalf.y
    };
    x_ok && y_ok
}

/// Collision test between two objects.  A probe segment is always the
/// probing side; probing one segment with another is unsupported.
pub fn collide(a: &Object, b: &Object) -> (r: bool)
    requires
        !(a.shape is Line && b.shape is Line),
        vec_bounded(a.pos, RESOLVE_LIMIT as int),
        vec_bounded(b.pos, RESOLVE_LIMIT as int),
        vec_bounded(aabb_half(a.shape), GEOM_LIMIT as int),
        vec_bounded(aabb_half(b.shape), GEOM_LIMIT as int),
    ensures
        r == collide_spec(*a, *b),
{
    match (&a.shape, &b.shape) {
        (Shape::Aabb(ha), Shape::Aabb(hb)) => overlap_boxes(a.pos, *ha, b.pos, *hb),
        (Shape::Line(d), Shape::Aabb(hb)) => segment_hits_box(a.pos, *d, b.pos, *hb),
        (Shape::Aabb(ha), Shape::Line(d)) => segment_hits_box(b.pos, *d, a.pos, *ha),
        (Shape::Line(_), Shape::Line(_)) => false,
    }
}

/// Skipping a non-overlapping collider does not change the first hit.
proof fn lemma_first_overlap_step(pos: Vector, half: Vector, cs: Seq<Object>, i: int)
    requires
        0 <= i < cs.len(),
        !overlaps_collider(pos, half, cs[i]),
    ensures
        first_overlap(pos, half, cs, i) == first_overlap(pos, half, cs, i + 1),
{
}

/// Index of the first overlapping collider, if any.
fn find_first_overlap(pos: Vector, half: Vector, colliders: &Vec<Object>) -> (r: Option<usize>)
    requires
        vec_bounded(pos, RESOLVE_LIMIT as int),
        vec_bounded(half, GEOM_LIMIT as int),
        colliders_bounded(colliders@),
    ensures
        match r {
            Option::Some(k) => first_overlap(pos, half, colliders@, 0) == k && k
                < colliders@.len() && overlaps_collider(pos, half, colliders@[k as int]),
            Option::None => first_overlap(pos, half, colliders@, 0) == colliders@.len(),
        },
{
    let n = colliders.len();
    let mut i: usize = 0;
    while i < n
        invariant
            0 <= i <= n,
            n == colliders@.len(),
            vec_bounded(pos, RESOLVE_LIMIT as int),
            vec_bounded(half, GEOM_LIMIT as int),
            colliders_bounded(colliders@),
            first_overlap(pos, half, colliders@, 0) == first_overlap(pos, half, colliders@, i as int),
        decreases n - i,
    {
        let c = &colliders[i];
        let ch = match c.shape {
            Shape::Aabb(h) => h,
            Shape::Line(d) => d,
        };
        if overlap_boxes(pos, half, c.pos, ch) {
            proof {
                assert(first_overlap(pos, half, colliders@, i as int) == i);
            }
            return Option::Some(i);
        }
        proof {
            lemma_first_overlap_step(pos, half, colliders@, i as int);
        }
        i = i + 1;
    }
    Option::None
}

/// Translate the mover out of collider `c` along the minimum-penetration
/// axis.  The result matches the push-out of the resolution spec and
/// stays within the resolution bound because the corrected coordinate
/// lands exactly on one of the collider's edges.
fn push_out(pos: Vector, half: Vector, c: &Object) -> (r: Vector)
    requires
        vec_bounded(pos, RESOLVE_LIMIT as int),
        vec_bounded(half, GEOM_LIMIT as int),
        collider_ok(*c),
        overlaps_collider(pos, half, *c),
    ensures
        r == pushed(pos, pushout_delta(pos, half, c.pos, aabb_half(c.shape))),
        vec_bounded(r, RESOLVE_LIMIT as int),
{
    let ch = match c.shape {
        Shape::Aabb(h) => h,
        Shape::Line(d) => d,
    };
    let m_bottom = pos.y - half.y;
    let m_top = pos.y + half.y;
    let m_left = pos.x - half.x;
    let m_right = pos.x + half.x;
    let c_bottom = c.pos.y - ch.y;
    let c_top = c.pos.y + ch.y;
    let c_left = c.pos.x - ch.x;
    let c_right = c.pos.x + ch.x;
    let up = if m_bottom >= c_top {
        m_bottom - c_top
    } else {
        c_top - m_bottom
    };
    let left = if m_right >= c_left {
        m_right - c_left
    } else {
        c_left - m_right
    };
    let down = if m_top >= c_bottom {
        m_top - c_bottom
    } else {
        c_bottom - m_top
    };
    let right = if m_left >= c_right {
        m_left - c_right
    } else {
        c_right - m_left
    };
    if up <= left && up <= down && up <= right {
        Vector { x: pos.x, y: pos.y + up }
    } else if left <= down && left <= right {
        Vector { x: pos.x - left, y: pos.y }
    } else if down <= right {
        Vector { x: pos.x, y: pos.y - down }
    } else {
        Vector { x: pos.x + right, y: pos.y }
    }
}

impl Object {
    /// A motionless object at `(x, y)` with the given shape.
    pub fn new(x: i64, y: i64, shape: Shape) -> (r: Object)
        ensures
            r == (Object { pos: Vector { x, y }, vel: Vector { x: 0, y: 0 }, shape }),
    {
        Object { pos: Vector { x, y }, vel: Vector { x: 0, y: 0 }, shape }
    }

    /// Integrate the velocity over `delta_time`, then push the mover out
    /// of every overlapping collider along the minimum-penetration axis,
    /// rescanning the collider list from the start after each correction,
    /// until no collider overlaps or the pass budget is exhausted.
    /// Returns whether any correction occurred.
    pub fn move_and_collide(&mut self, colliders: &Vec<Object>, delta_time: i64) -> (collided:
        bool)
        requires
            mover_ok(*old(self)),
            colliders_bounded(colliders@),
            0 <= delta_time <= FX_ONE,
        ensures
            final(self).vel == old(self).vel,
            final(self).shape == old(self).shape,
            (final(self).pos, collided) == advance_spec(*old(self), colliders@, delta_time as int),
            vec_bounded(final(self).pos, RESOLVE_LIMIT as int),
    {
        let half = match self.shape {
            Shape::Aabb(h) => h,
            Shape::Line(d) => d,
        };
        let dx = scale_by_dt(self.vel.x, delta_time);
        let dy = scale_by_dt(self.vel.y, delta_time);
        self.pos = Vector { x: self.pos.x + dx, y: self.pos.y + dy };
        let ghost pos1 = self.pos;
        let ghost cs = colliders@;
        proof {
            assert(pos1 == integrate(old(self).pos, old(self).vel, delta_time as int));
        }
        let mut collided = false;
        let mut fuel: u64 = MAX_RESOLVE_PASSES;
        loop
            invariant_except_break
                vec_bounded(self.pos, RESOLVE_LIMIT as int),
                vec_bounded(half, GEOM_LIMIT as int),
                half == aabb_half(old(self).shape),
                self.vel == old(self).vel,
                self.shape == old(self).shape,
                colliders_bounded(cs),
                cs == colliders@,
                fuel <= MAX_RESOLVE_PASSES,
                resolve_spec(pos1, half, cs, MAX_RESOLVE_PASSES as nat).0 == resolve_spec(
                    self.pos,
                    half,
                    cs,
                    fuel as nat,
                ).0,
                resolve_spec(pos1, half, cs, MAX_RESOLVE_PASSES as nat).1 == (collided
                    || resolve_spec(self.pos, half, cs, fuel as nat).1),
            ensures
                self.vel == old(self).vel,
                self.shape == old(self).shape,
                vec_bounded(self.pos, RESOLVE_LIMIT as int),
                (self.pos, collided) == resolve_spec(pos1, half, cs, MAX_RESOLVE_PASSES as nat),
            decreases fuel,
        {
            match find_first_overlap(self.pos, half, colliders) {
                Option::None => {
                    proof {
                        assert(resolve_spec(self.pos, half, cs, fuel as nat) == (self.pos, false));
                    }
                    break ;
                },
                Option::Some(k) => {
                    if fuel == 0 {
                        collided = true;
                        proof {
                            assert(resolve_spec(self.pos, half, cs, 0nat) == (self.pos, true));
                        }
                        break ;
                    }
                    let ghost prev = self.pos;
                    self.pos = push_out(self.pos, half, &colliders[k]);
                    collided = true;
                    fuel = fuel - 1;
                    proof {
                        assert(resolve_spec(prev, half, cs, (fuel + 1) as nat).0 == resolve_spec(
                            self.pos,
                            half,
                            cs,
                            fuel as nat,
                        ).0);
                        assert(resolve_spec(prev, half, cs, (fuel + 1) as nat).1);
                    }
                },
            }
        }
        collided
    }
}

/// Two boxes whose edges exactly touch (zero gap on some axis) do not
/// overlap: the overlap predicate is strict.
pub proof fn lemma_touching_boxes_do_not_overlap(pa: Vector, ha: Vector, pb: Vector, hb: Vector)
    requires
        pa.x + ha.x == pb.x - hb.x || pb.x + hb.x == pa.x - ha.x || pa.y + ha.y == pb.y - hb.y
            || pb.y + hb.y == pa.y - ha.y,
    ensures
        !boxes_overlap(pa, ha, pb, hb),
{
}

/// A zero-offset probe reduces exactly to the strict point-in-box test.
pub proof fn lemma_zero_probe_is_point_test(pos: Vector, bpos: Vector, bhalf: Vector)
    ensures
        seg_hits_box(pos, Vector { x: 0, y: 0 }, bpos, bhalf) == point_in_box(pos, bpos, bhalf),
{
}

/// The first-overlap scan lands between `i` and the list length, and a
/// result short of the length really overlaps.
pub proof fn lemma_first_overlap_props(pos: Vector, half: Vector, cs: Seq<Object>, i: int)
    requires
        0 <= i <= cs.len(),
    ensures
        i <= first_overlap(pos, half, cs, i) <= cs.len(),
        first_overlap(pos, half, cs, i) < cs.len() ==> overlaps_collider(
            pos,
            half,
            cs[first_overlap(pos, half, cs, i)],
        ),
    decreases cs.len() - i,
{
    if i < cs.len() && !overlaps_collider(pos, half, cs[i]) {
        lemma_first_overlap_props(pos, half, cs, i + 1);
    }
}

/// A push-out lands the corrected coordinate on an edge of the collider,
/// so the result is bounded by the collider bound plus two half-extents;
/// the untouched coordinate keeps the mover bound.
proof fn lemma_pushed_bound(pos: Vector, half: Vector, cpos: Vector, chalf: Vector, bm: int, bc:
    int)
    requires
        boxes_overlap(pos, half, cpos, chalf),
        vec_bounded(pos, bm),
        vec_bounded(cpos, bc),
        vec_bounded(half, GEOM_LIMIT as int),
        vec_bounded(chalf, GEOM_LIMIT as int),
        0 <= bm <= i64::MAX,
        0 <= bc,
        bc + 0x1_0000_0000 <= i64::MAX,
    ensures
        vec_bounded(
            pushed(pos, pushout_delta(pos, half, cpos, chalf)),
            if bm >= bc + 0x1_0000_0000 {
                bm
            } else {
                bc + 0x1_0000_0000
            },
        ),
{
}

/// The resolved position is bounded by the larger of the mover bound and
/// the collider bound plus two half-extents: the result is either the
/// start position or the last push-out's landing spot.
pub proof fn lemma_resolve_bounded(pos: Vector, half: Vector, cs: Seq<Object>, fuel: nat, bm: int,
    bc: int)
    requires
        vec_bounded(pos, bm),
        vec_bounded(half, GEOM_LIMIT as int),
        forall|i: int|
            0 <= i < cs.len() ==> vec_bounded(#[trigger] cs[i].pos, bc) && vec_bounded(
                aabb_half(cs[i].shape),
                GEOM_LIMIT as int,
            ),
        0 <= bm <= i64::MAX,
        0 <= bc,
        bc + 0x1_0000_0000 <= i64::MAX,
    ensures
        vec_bounded(
            resolve_spec(pos, half, cs, fuel).0,
            if bm >= bc + 0x1_0000_0000 {
                bm
            } else {
                bc + 0x1_0000_0000
            },
        ),
    decreases fuel,
{
    let k = first_overlap(pos, half, cs, 0);
    lemma_first_overlap_props(pos, half, cs, 0);
    if k < cs.len() && fuel > 0 {
        let c = cs[k];
        let next = pushed(pos, pushout_delta(pos, half, c.pos, aabb_half(c.shape)));
        lemma_pushed_bound(pos, half, c.pos, aabb_half(c.shape), bm, bc);
        let bm2 = if bm >= bc + 0x1_0000_0000 {
            bm
        } else {
            bc + 0x1_0000_0000
        };
        lemma_resolve_bounded(next, half, cs, (fuel - 1) as nat, bm2, bc);
    }
}

/// If no collider overlaps at or after `i`, the scan finds nothing.
proof fn lemma_no_overlap_scan(pos: Vector, half: Vector, cs: Seq<Object>, i: int)
    requires
        0 <= i <= cs.len(),
        forall|j: int| 0 <= j < cs.len() ==> !overlaps_collider(pos, half, #[trigger] cs[j]),
    ensures
        first_overlap(pos, half, cs, i) == cs.len(),
    decreases cs.len() - i,
{
    if i < cs.len() {
        lemma_no_overlap_scan(pos, half, cs, i + 1);
    }
}

/// A mover at rest is left exactly where it is: with zero velocity the
/// integration step is the identity, and with no overlapping collider the
/// resolution changes nothing and reports no collision.
pub proof fn lemma_advance_at_rest(o: Object, cs: Seq<Object>, dt: int, fuel: nat)
    requires
        o.vel == (Vector { x: 0i64, y: 0i64 }),
        forall|j: int|
            0 <= j < cs.len() ==> !overlaps_collider(
                o.pos,
                aabb_half(o.shape),
                #[trigger] cs[j],
            ),
    ensures
        integrate(o.pos, o.vel, dt) == o.pos,
        advance_spec(o, cs, dt) == (o.pos, false),
{
    assert(0 * dt == 0) by (nonlinear_arith);
    assert(fx_mul_spec(0, dt) == 0);
    assert(integrate(o.pos, o.vel, dt) == o.pos);
    lemma_no_overlap_scan(o.pos, aabb_half(o.shape), cs, 0);
}

/// Resolving a mover that penetrates a single collider from above moves
/// it up by exactly the penetration depth, leaves the horizontal
/// coordinate unchanged, and reports the collision: after the correction
/// the mover's bottom edge rests exactly on the collider's top edge,
/// which no longer counts as overlap.
pub proof fn lemma_single_pushup(pos: Vector, half: Vector, c: Object, fuel: nat)
    requires
        fuel >= 1,
        overlaps_collider(pos, half, c),
        vec_bounded(pos, RESOLVE_LIMIT as int),
        vec_bounded(half, GEOM_LIMIT as int),
        collider_ok(c),
        ({
            let up = iabs((pos.y - half.y) - (c.pos.y + aabb_half(c.shape).y));
            let left = iabs((pos.x + half.x) - (c.pos.x - aabb_half(c.shape).x));
            let down = iabs((pos.y + half.y) - (c.pos.y - aabb_half(c.shape).y));
            let right = iabs((pos.x - half.x) - (c.pos.x + aabb_half(c.shape).x));
            up <= left && up <= down && up <= right
        }),
    ensures
        ({
            let up = iabs((pos.y - half.y) - (c.pos.y + aabb_half(c.shape).y));
            resolve_spec(pos, half, seq![c], fuel) == (
                Vector { x: pos.x, y: (pos.y + up) as i64 },
                true,
            )
        }),
{
    let cs = seq![c];
    let ch = aabb_half(c.shape);
    assert(cs[0] == c);
    assert(first_overlap(pos, half, cs, 0) == 0);
    let up = iabs((pos.y - half.y) - (c.pos.y + ch.y));
    let delta = pushout_delta(pos, half, c.pos, ch);
    assert(delta == (0int, up));
    let next = pushed(pos, delta);
    assert(up == (c.pos.y + ch.y) - (pos.y - half.y));
    assert(next.y == c.pos.y + ch.y + half.y);
    assert(next.x == pos.x);
    assert(!overlaps_collider(next, half, c));
    lemma_no_overlap_scan(next, half, cs, 0);
    assert(resolve_spec(next, half, cs, (fuel - 1) as nat) == (next, false));
}

} // verus!
