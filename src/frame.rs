//! One frame of the engine: keep the grid in step with the bodies, find
//! this frame's contacts, then move every body.
use vstd::prelude::*;
use crate::body::{fits_i32, InertiaVolume};
use crate::collision::{contact_tick, tick_displacement};
use crate::entity::EntityId;
use crate::fixed::{div0, div_toward_zero, MICROS_PER_SECOND};
use crate::grid::{
    accepted_by, cell_of, examined, inserted, lemma_filter_agree, query_ids, retained, updated,
    SpacialGrid,
};
use crate::vector::Vector;

verus! {

/// A body as a frame sees it: its handle, its position and its motion.
#[derive(Clone, Copy, Debug)]
pub struct BodyState {
    pub entity: EntityId,
    pub position: Vector,
    pub volume: InertiaVolume,
}

/// A contact found in a frame: two entities and an estimate of the point
/// where they touch.
#[derive(Clone, Copy, Debug, PartialEq, Eq, Structural)]
pub struct Collision {
    pub e0: EntityId,
    pub e1: EntityId,
    pub location: Vector,
}

/// The position at which a body was last placed in the grid.
#[derive(Clone, Copy, Debug, PartialEq, Eq, Structural)]
pub struct SpacialReference(pub Vector);

/// A body as grid upkeep sees it: its handle, its position now, and where
/// it was last placed in the grid, if it ever was.
#[derive(Clone, Copy, Debug)]
pub struct PlacedBody {
    pub entity: EntityId,
    pub position: Vector,
    pub previous: Option<SpacialReference>,
}

/// Whether some body has handle `id`.
pub open spec fn tracks(bodies: Seq<PlacedBody>, id: EntityId) -> bool {
    exists|i: int| 0 <= i < bodies.len() && #[trigger] bodies[i].entity == id
}

/// The grid after upkeep of body `b`: placed if it was never placed, moved
/// if it has left its last position, untouched otherwise.
pub open spec fn maintain_step(m: Map<(int, int), Seq<EntityId>>, cell_size: int, b: PlacedBody) -> Map<(int, int), Seq<EntityId>> {
    match b.previous {
        None => inserted(m, cell_of(b.position, cell_size), b.entity),
        Some(p) => if p.0 == b.position {
            m
        } else {
            updated(m, cell_of(p.0, cell_size), cell_of(b.position, cell_size), b.entity)
        },
    }
}

/// The grid after upkeep of the first `n` bodies, in order.
pub open spec fn maintained(m: Map<(int, int), Seq<EntityId>>, cell_size: int, bodies: Seq<PlacedBody>, n: int) -> Map<(int, int), Seq<EntityId>>
    decreases n,
{
    if n <= 0 {
        m
    } else {
        maintain_step(maintained(m, cell_size, bodies, n - 1), cell_size, bodies[n - 1])
    }
}

/// A position moved by `velocity` over `dt` microseconds, each component
/// rounded toward zero.
pub open spec fn advanced(position: Vector, velocity: Vector, dt: int) -> (int, int) {
    (
        position.x + div0(velocity.x * dt, MICROS_PER_SECOND as int),
        position.y + div0(velocity.y * dt, MICROS_PER_SECOND as int),
    )
}

/// `x` limited to the range of an `i32`.
pub open spec fn clamp_i32(x: int) -> i32 {
    if x < i32::MIN {
        i32::MIN
    } else if x > i32::MAX {
        i32::MAX
    } else {
        x as i32
    }
}

/// The index of the first body from `i` on whose handle is `id`.
pub open spec fn find_from(bodies: Seq<BodyState>, id: EntityId, i: int) -> Option<int>
    decreases bodies.len() - i,
{
    if i < 0 || i >= bodies.len() {
        None
    } else if bodies[i].entity == id {
        Some(i)
    } else {
        find_from(bodies, id, i + 1)
    }
}

/// The contact of `a` with `b` in a frame of `dt` microseconds, placed where
/// `a` has moved to at the contact tick. Bodies too far apart for their
/// offset to fit in an `i32` have none.
pub open spec fn pair_collision(a: BodyState, b: BodyState, dt: int) -> Option<Collision> {
    let rx = b.position.x - a.position.x;
    let ry = b.position.y - a.position.y;
    if !(fits_i32(rx) && fits_i32(ry)) {
        None
    } else {
        match contact_tick(a.volume, b.volume, Vector { x: rx as i32, y: ry as i32 }, dt) {
            None => None,
            Some(k) => Some(Collision {
                e0: a.entity,
                e1: b.entity,
                location: Vector {
                    x: clamp_i32(a.position.x + tick_displacement(a.volume.velocity.x as int, k, dt)),
                    y: clamp_i32(a.position.y + tick_displacement(a.volume.velocity.y as int, k, dt)),
                },
            }),
        }
    }
}

/// The contact of `a` with the body whose handle `id` a query returned:
/// none for `a` itself or for a handle that no body has.
pub open spec fn candidate_collision(bodies: Seq<BodyState>, a: BodyState, id: EntityId, dt: int) -> Seq<Collision> {
    if id == a.entity {
        Seq::empty()
    } else {
        match find_from(bodies, id, 0) {
            None => Seq::empty(),
            Some(j) => match pair_collision(a, bodies[j], dt) {
                None => Seq::empty(),
                Some(c) => seq![c],
            },
        }
    }
}

/// The contacts of `a` with the first `n` of the candidates `ids`.
pub open spec fn body_collisions(bodies: Seq<BodyState>, a: BodyState, ids: Seq<EntityId>, n: int, dt: int) -> Seq<Collision>
    decreases n,
{
    if n <= 0 {
        Seq::empty()
    } else {
        body_collisions(bodies, a, ids, n - 1, dt) + candidate_collision(bodies, a, ids[n - 1], dt)
    }
}

/// The contacts of the first `n` bodies, each with the candidates that a
/// query of grid `m` around it returns.
pub open spec fn frame_collisions(m: Map<(int, int), Seq<EntityId>>, cell_size: int, bodies: Seq<BodyState>, n: int, dt: int) -> Seq<Collision>
    decreases n,
{
    if n <= 0 {
        Seq::empty()
    } else {
        let a = bodies[n - 1];
        let ids = query_ids(m, cell_of(a.position, cell_size));
        frame_collisions(m, cell_size, bodies, n - 1, dt) + body_collisions(bodies, a, ids, ids.len() as int, dt)
    }
}

/// The index of the first body with handle `id`.
fn find_body(bodies: &Vec<BodyState>, id: EntityId) -> (r: Option<usize>)
    ensures
        match r {
            Some(i) => i < bodies@.len() && find_from(bodies@, id, 0) == Some(i as int),
            None => find_from(bodies@, id, 0) == None::<int>,
        },
{
    let mut i: usize = 0;
    while i < bodies.len()
        invariant
            i <= bodies.len(),
            find_from(bodies@, id, 0) == find_from(bodies@, id, i as int),
        decreases bodies.len() - i,
    {
        if bodies[i].entity == id {
            return Some(i);
        }
        i = i + 1;
    }
    None
}

/// `x` limited to the range of an `i32`.
fn clamp(x: i64) -> (r: i32)
    ensures
        r == clamp_i32(x as int),
{
    if x < i32::MIN as i64 {
        i32::MIN
    } else if x > i32::MAX as i64 {
        i32::MAX
    } else {
        x as i32
    }
}

/// Executable `pair_collision`.
fn find_pair_collision(a: &BodyState, b: &BodyState, dt: u32) -> (r: Option<Collision>)
    ensures
        r == pair_collision(*a, *b, dt as int),
{
    let rx: i64 = (b.position.x as i64) - (a.position.x as i64);
    let ry: i64 = (b.position.y as i64) - (a.position.y as i64);
    if rx < i32::MIN as i64 || rx > i32::MAX as i64 || ry < i32::MIN as i64 || ry > i32::MAX as i64 {
        return None;
    }
    let rel = Vector { x: rx as i32, y: ry as i32 };
    let found = a.volume.find_collision(&b.volume, rel, dt);
    match found {
        None => None,
        Some(k) => {
            let d = a.volume.contact_offset(k, dt);
            Some(Collision {
                e0: a.entity,
                e1: b.entity,
                location: Vector {
                    x: clamp((a.position.x as i64) + d.0),
                    y: clamp((a.position.y as i64) + d.1),
                },
            })
        },
    }
}

/// Finds this frame's contacts: for each body in turn, the bodies that a
/// grid query around its position returns, itself and handles without a
/// body left out, are tested with `find_collision` over `dt` microseconds.
pub fn generate_collisions(grid: &SpacialGrid, bodies: &Vec<BodyState>, dt: u32) -> (r: Vec<Collision>)
    requires
        grid.wf(),
    ensures
        r@ == frame_collisions(grid@, grid.spec_cell_size(), bodies@, bodies@.len() as int, dt as int),
{
    let mut out: Vec<Collision> = Vec::new();
    let mut i: usize = 0;
    while i < bodies.len()
        invariant
            i <= bodies.len(),
            grid.wf(),
            out@ == frame_collisions(grid@, grid.spec_cell_size(), bodies@, i as int, dt as int),
        decreases bodies.len() - i,
    {
        let a = bodies[i];
        let ids = grid.query(a.position);
        let ghost before = out@;
        let mut j: usize = 0;
        while j < ids.len()
            invariant
                j <= ids.len(),
                a == bodies@[i as int],
                out@ == before + body_collisions(bodies@, a, ids@, j as int, dt as int),
            decreases ids.len() - j,
        {
            let id = ids[j];
            let ghost prior = body_collisions(bodies@, a, ids@, j as int, dt as int);
            if id != a.entity {
                match find_body(bodies, id) {
                    Some(k) => {
                        match find_pair_collision(&a, &bodies[k], dt) {
                            Some(c) => {
                                out.push(c);
                            },
                            None => {},
                        }
                    },
                    None => {},
                }
            }
            j = j + 1;
            assert(out@ =~= before + (prior + candidate_collision(bodies@, a, id, dt as int)));
        }
        i = i + 1;
        assert(out@ =~= frame_collisions(grid@, grid.spec_cell_size(), bodies@, i as int, dt as int));
    }
    out
}

/// Whether some body has handle `id`.
fn is_tracked(bodies: &Vec<PlacedBody>, id: EntityId) -> (r: bool)
    ensures
        r == tracks(bodies@, id),
{
    let mut i: usize = 0;
    while i < bodies.len()
        invariant
            i <= bodies.len(),
            forall|j: int| 0 <= j < i ==> #[trigger] bodies@[j].entity != id,
        decreases bodies.len() - i,
    {
        if bodies[i].entity == id {
            return true;
        }
        i = i + 1;
    }
    false
}

/// Brings the grid in step with the bodies: drops the handles that no body
/// has any more, then for each body in turn places it if it was never
/// placed and moves it if it has left its last position. Returns, for each
/// body, the position at which it now stands in the grid.
pub fn maintain_spacial_grid(grid: &mut SpacialGrid, bodies: &Vec<PlacedBody>) -> (refs: Vec<SpacialReference>)
    requires
        old(grid).wf(),
    ensures
        final(grid).wf(),
        final(grid).spec_cell_size() == old(grid).spec_cell_size(),
        final(grid)@ == maintained(
            retained(old(grid)@, |e: EntityId| tracks(bodies@, e)),
            old(grid).spec_cell_size(),
            bodies@,
            bodies@.len() as int,
        ),
        refs@.len() == bodies@.len(),
        forall|i: int| 0 <= i < bodies@.len() ==> #[trigger] refs@[i].0 == bodies@[i].position,
{
    let live = |e: &EntityId| -> (r: bool)
        ensures
            r == tracks(bodies@, *e),
        { is_tracked(bodies, *e) };
    let ghost start = grid@;
    grid.retain(live);
    proof {
        let q = |e: EntityId| tracks(bodies@, e);
        assert forall|c: (int, int)| #[trigger] start.contains_key(c) implies start[c].filter(accepted_by(live)) == start[c].filter(q) by {
            assert forall|t: int| 0 <= t < start[c].len() implies accepted_by(live)(#[trigger] start[c][t]) == q(start[c][t]) by {
                assert(examined(live, start[c][t]));
            }
            lemma_filter_agree(start[c], accepted_by(live), q);
        }
        assert(retained(start, accepted_by(live)) =~= retained(start, q));
    }
    let ghost first = grid@;
    let mut refs: Vec<SpacialReference> = Vec::new();
    let mut i: usize = 0;
    while i < bodies.len()
        invariant
            i <= bodies.len(),
            grid.wf(),
            grid.spec_cell_size() == old(grid).spec_cell_size(),
            grid@ == maintained(first, old(grid).spec_cell_size(), bodies@, i as int),
            refs@.len() == i,
            forall|t: int| 0 <= t < i ==> #[trigger] refs@[t].0 == bodies@[t].position,
        decreases bodies.len() - i,
    {
        let b = bodies[i];
        match b.previous {
            Some(prev) => {
                if prev.0 != b.position {
                    grid.update(b.entity, prev.0, b.position);
                }
            },
            None => {
                grid.insert(b.entity, b.position);
            },
        }
        refs.push(SpacialReference(b.position));
        i = i + 1;
    }
    refs
}

/// Moves `position` by `velocity` over `dt` microseconds.
pub fn advance_position(position: Vector, velocity: Vector, dt: u32) -> (r: Vector)
    requires
        fits_i32(advanced(position, velocity, dt as int).0),
        fits_i32(advanced(position, velocity, dt as int).1),
    ensures
        r.x == advanced(position, velocity, dt as int).0,
        r.y == advanced(position, velocity, dt as int).1,
{
    proof {
        lemma_product_bound(velocity.x as int, dt as int);
        lemma_product_bound(velocity.y as int, dt as int);
    }
    let dx = div_toward_zero((velocity.x as i128) * (dt as i128), MICROS_PER_SECOND);
    let dy = div_toward_zero((velocity.y as i128) * (dt as i128), MICROS_PER_SECOND);
    Vector { x: ((position.x as i128) + dx) as i32, y: ((position.y as i128) + dy) as i32 }
}

/// Moves every body by its velocity over `dt` microseconds.
pub fn apply_velocity(bodies: &mut Vec<BodyState>, dt: u32)
    requires
        forall|i: int| 0 <= i < old(bodies)@.len() ==> {
            &&& fits_i32(advanced(#[trigger] old(bodies)@[i].position, old(bodies)@[i].volume.velocity, dt as int).0)
            &&& fits_i32(advanced(old(bodies)@[i].position, old(bodies)@[i].volume.velocity, dt as int).1)
        },
    ensures
        final(bodies)@.len() == old(bodies)@.len(),
        forall|i: int| 0 <= i < old(bodies)@.len() ==> {
            let b = old(bodies)@[i];
            let a = #[trigger] final(bodies)@[i];
            &&& a.entity == b.entity
            &&& a.volume == b.volume
            &&& a.position.x == advanced(b.position, b.volume.velocity, dt as int).0
            &&& a.position.y == advanced(b.position, b.volume.velocity, dt as int).1
        },
{
    let mut i: usize = 0;
    while i < bodies.len()
        invariant
            i <= bodies.len(),
            bodies@.len() == old(bodies)@.len(),
            forall|j: int| i <= j < bodies@.len() ==> #[trigger] bodies@[j] == old(bodies)@[j],
            forall|j: int| 0 <= j < old(bodies)@.len() ==> {
                &&& fits_i32(advanced(#[trigger] old(bodies)@[j].position, old(bodies)@[j].volume.velocity, dt as int).0)
                &&& fits_i32(advanced(old(bodies)@[j].position, old(bodies)@[j].volume.velocity, dt as int).1)
            },
            forall|j: int| 0 <= j < i ==> {
                let b = old(bodies)@[j];
                let a = #[trigger] bodies@[j];
                &&& a.entity == b.entity
                &&& a.volume == b.volume
                &&& a.position.x == advanced(b.position, b.volume.velocity, dt as int).0
                &&& a.position.y == advanced(b.position, b.volume.velocity, dt as int).1
            },
        decreases bodies.len() - i,
    {
        let b = bodies[i];
        let p = advance_position(b.position, b.volume.velocity, dt);
        bodies.set(i, BodyState { entity: b.entity, position: p, volume: b.volume });
        i = i + 1;
    }
}

/// A 32-bit value times a step of at most `u32::MAX` fits the computation.
proof fn lemma_product_bound(v: int, dt: int)
    requires
        i32::MIN <= v <= i32::MAX,
        0 <= dt <= u32::MAX,
    ensures
        -0x8000_0000 * 0x1_0000_0000 <= v * dt <= 0x8000_0000 * 0x1_0000_0000,
{
    assert(-0x8000_0000 * 0x1_0000_0000 <= v * dt <= 0x8000_0000 * 0x1_0000_0000) by (nonlinear_arith)
        requires
            -0x8000_0000 <= v < 0x8000_0000,
            0 <= dt < 0x1_0000_0000,
    ;
}

} // verus!
