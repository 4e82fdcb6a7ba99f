use rust_space_trader::body::InertiaVolume;
use rust_space_trader::collision::{COLLISION_TICK_LENGTH, MAX_COLLISION_TICKS};
use rust_space_trader::entity::EntityId;
use rust_space_trader::frame::{
    advance_position, apply_velocity, generate_collisions, maintain_spacial_grid, BodyState,
    PlacedBody, SpacialReference,
};
use rust_space_trader::grid::{SpacialGrid, DEFAULT_CELL_SIZE};
use rust_space_trader::vector::Vector;

const AXIS: i32 = 16384;

fn body(mass: u32, radius: u32, vx: i32, vy: i32) -> InertiaVolume {
    let mut b = InertiaVolume::new(mass, radius);
    b.velocity = Vector::new(vx, vy);
    b
}

#[test]
fn find_collision_easy() {
    let inertia_volume = InertiaVolume::new(1, 1);
    let other = InertiaVolume::new(1, 1);
    let diff = Vector::new(1, 0);
    let collision = inertia_volume.find_collision(&other, diff, 1_000_000 / 60);
    assert_eq!(collision, Some(0));
    assert_eq!(inertia_volume.contact_offset(0, 1_000_000 / 60), (0, 0));
}

#[test]
fn find_collision_tangent() {
    let going_right = body(1, 1, 500, 0);
    let going_down = body(1, 1, 0, 500);
    let diff = Vector::new(10, -10);
    let collision = going_right.find_collision(&going_down, diff, 1_000_000 / 30);
    assert_eq!(collision, Some(18));
    assert_eq!(going_right.contact_offset(18, 1_000_000 / 30), (8, 0));
}

#[test]
fn find_collision_miss() {
    let going_right = body(1, 1, 1, 0);
    let going_down = body(1, 1, 0, -1);
    let diff = Vector::new(5, -5);
    let collision = going_right.find_collision(&going_down, diff, 1_000_000 / 60);
    assert_eq!(collision, None);
}

#[test]
fn collision_identical_positions_is_immediate() {
    let a = body(1, 0, 1000, 0);
    let b = body(1, 0, -1000, 0);
    assert_eq!(a.find_collision(&b, Vector::new(0, 0), 16_667), Some(0));
}

#[test]
fn collision_zero_relative_velocity_never_touches() {
    let a = body(1, 1, 300, 300);
    let b = body(1, 1, 300, 300);
    assert_eq!(a.find_collision(&b, Vector::new(3, 0), 1_000_000), None);
}

#[test]
fn collision_diverging_bodies_miss() {
    let a = body(1, 2, -100, 0);
    let b = body(1, 2, 100, 0);
    assert_eq!(a.find_collision(&b, Vector::new(10, 0), 33_333), None);
}

#[test]
fn collision_head_on_tick() {
    // 100 units apart, closing at 2000 units/s: touching (radii 5 + 5) after
    // 90 units, that is 45 ms, which is tick 45.
    let a = body(1, 5, 1000, 0);
    let b = body(1, 5, -1000, 0);
    assert_eq!(a.find_collision(&b, Vector::new(100, 0), 50_000), Some(45));
    assert_eq!(a.contact_offset(45, 50_000), (45, 0));
}

#[test]
fn collision_sub_ticks_split_the_frame_evenly() {
    // A frame of 1.5 ms is split into two ticks of 0.75 ms; bodies 2 units
    // apart closing at 1000 units/s are still 0.5 units apart at its end.
    let a = body(1, 0, 0, 0);
    let b = body(1, 0, -1000, 0);
    assert_eq!(a.find_collision(&b, Vector::new(2, 0), 1_500), None);
    assert_eq!(a.find_collision(&b, Vector::new(1, 0), 1_500), None);
    let fast = body(1, 0, 1000, 0);
    let still = body(1, 0, 0, 0);
    assert_eq!(fast.find_collision(&still, Vector::new(1, 0), 2_000), Some(1));
    assert!(fast.contact_offset(2, 1_500).0 <= 1);
}

#[test]
fn collision_tick_cap_stretches_the_ticks() {
    // A one-second frame has the capped 250 ticks of 4 ms each.
    assert_eq!(COLLISION_TICK_LENGTH, 1000);
    assert_eq!(MAX_COLLISION_TICKS, 250);
    let a = body(1, 0, 0, 0);
    let b = body(1, 0, -1000, 0);
    assert_eq!(a.find_collision(&b, Vector::new(300, 0), 1_000_000), Some(75));
    assert_eq!(a.find_collision(&b, Vector::new(200, 0), 1_000_000), Some(50));
    // Thin bodies can pass between two long ticks unseen.
    let thin = body(1, 1, 0, 0);
    assert_eq!(thin.find_collision(&b, Vector::new(2, 0), 1_000_000), None);
}

#[test]
fn collision_long_frames_are_accepted() {
    // A 60 s frame: 250 ticks of 240 ms; closing at 1000 units/s from 30000
    // units away, the bodies meet after 30 s, at tick 125.
    let a = body(1, 0, 0, 0);
    let b = body(1, 0, -1000, 0);
    assert_eq!(a.find_collision(&b, Vector::new(30_000, 0), 60_000_000), Some(125));
    assert_eq!(b.contact_offset(125, 60_000_000), (-30_000, 0));
    // Overlapping bodies touch at once, and equal velocities never close in.
    assert_eq!(b.find_collision(&b, Vector::new(0, 0), u32::MAX), Some(0));
    let c = body(1, 1, 5000, -5000);
    assert_eq!(c.find_collision(&c, Vector::new(3, 0), u32::MAX), None);
    // The displacement over a long frame may exceed an `i32`.
    let fast = body(1, 0, i32::MAX, i32::MIN);
    assert_eq!(
        fast.contact_offset(250, u32::MAX),
        (i32::MAX as i64 * u32::MAX as i64 / 1_000_000, i32::MIN as i64 * u32::MAX as i64 / 1_000_000)
    );
}

#[test]
fn collision_zero_dt_only_checks_the_start() {
    let a = body(1, 1, 0, 0);
    let b = body(1, 1, -1000, 0);
    assert_eq!(a.find_collision(&b, Vector::new(3, 0), 0), None);
    assert_eq!(a.find_collision(&b, Vector::new(2, 0), 0), Some(0));
}

#[test]
fn apply_force_changes_velocity_by_force_over_mass_times_dt() {
    let mut b = InertiaVolume::new(2, 1);
    b.apply_force(Vector::new(1000, -1000), 500_000);
    assert_eq!(b.velocity, Vector::new(250, -250));
    b.apply_force(Vector::new(3, -3), 1_000_000);
    assert_eq!(b.velocity, Vector::new(251, -251));
}

#[test]
fn apply_impulse_divides_by_mass() {
    let mut b = InertiaVolume::new(4, 1);
    b.apply_impulse(Vector::new(10, -10));
    assert_eq!(b.velocity, Vector::new(2, -2));
    assert_eq!(b.rotation(), 0);
}

#[test]
fn apply_thrust_force_along_axis() {
    let mut b = InertiaVolume::new(1, 1);
    b.apply_thrust_force(100, Vector::new(0, AXIS), 1_000_000);
    assert_eq!(b.velocity, Vector::new(0, 100));
}

#[test]
fn thrust_limited_never_passes_limit() {
    let mut b = InertiaVolume::new(1, 1);
    let axis = Vector::new(AXIS, 0);
    for _ in 0..20 {
        b.apply_thrust_force_limited(100, axis, 50, 100_000);
        assert!(b.velocity.x <= 50);
    }
    assert_eq!(b.velocity, Vector::new(50, 0));
}

#[test]
fn thrust_limited_backwards() {
    let mut b = InertiaVolume::new(1, 1);
    let axis = Vector::new(AXIS, 0);
    for _ in 0..10 {
        b.apply_offset_thrust_force_limited(-100, axis, 30, 100_000);
    }
    assert_eq!(b.velocity, Vector::new(-30, 0));
}

#[test]
fn braking_without_tangent_does_nothing() {
    let mut b = body(1, 1, 120, 0);
    let r = b.apply_thrust_braking(50, Vector::new(AXIS, 0), 1_000_000);
    assert_eq!(r, 0);
    assert_eq!(b.velocity, Vector::new(120, 0));
}

#[test]
fn braking_pushes_against_tangent() {
    let mut b = body(1, 1, 0, -100);
    let r = b.apply_thrust_braking(50, Vector::new(AXIS, 0), 1_000_000);
    assert_eq!(r, 100 * AXIS as i64);
    assert_eq!(b.velocity, Vector::new(0, -50));
    let mut c = body(1, 1, 0, 100);
    let r = c.apply_offset_thrust_braking(50, Vector::new(AXIS, 0), 1_000_000);
    assert_eq!(r, -100 * AXIS as i64);
    assert_eq!(c.velocity, Vector::new(0, 50));
}

#[test]
fn braking_keeps_small_tangential_speeds() {
    let mut b = body(1, 1, 1, 0);
    let r = b.apply_offset_thrust_braking(0, Vector::new(11585, 11585), 1_000_000);
    assert_eq!(r, 11585);
    let mut c = body(1, 1, 0, 1);
    assert_eq!(c.apply_offset_thrust_braking(0, Vector::new(11585, 11585), 1_000_000), -11585);
}

#[test]
fn thrust_limited_stops_short_of_the_limit() {
    let mut b = body(1, 1, 50, 0);
    b.apply_thrust_force_limited(10, Vector::new(AXIS, 0), 55, 1_000_000);
    assert_eq!(b.velocity, Vector::new(50, 0));
    b.apply_thrust_force_limited(5, Vector::new(AXIS, 0), 55, 1_000_000);
    assert_eq!(b.velocity, Vector::new(55, 0));
    b.apply_thrust_force_limited(1, Vector::new(AXIS, 0), 55, 1_000_000);
    assert_eq!(b.velocity, Vector::new(55, 0));
    b.apply_thrust_force_limited(-10, Vector::new(AXIS, 0), 55, 1_000_000);
    assert_eq!(b.velocity, Vector::new(45, 0));
}

#[test]
fn thrust_limited_with_uneven_steps_never_passes_limit() {
    let mut b = InertiaVolume::new(1, 1);
    let axis = Vector::new(AXIS, 0);
    for _ in 0..30 {
        b.apply_thrust_force_limited(3, axis, 10, 1_000_000);
        assert!(b.velocity.x <= 10);
    }
    assert_eq!(b.velocity, Vector::new(9, 0));
}

#[test]
fn rotation_force_turns_heading() {
    let mut b = InertiaVolume::new(1, 1);
    b.apply_rotation_force(1_000_000, 500_000);
    assert_eq!(b.rotation(), 500_000);
    b.apply_rotation_force(-3, 500_000);
    assert_eq!(b.rotation(), 499_999);
}

fn id(i: u32) -> EntityId {
    EntityId::new(i, 0)
}

#[test]
fn grid_default_is_empty() {
    let g = SpacialGrid::default();
    assert!(g.query(Vector::new(0, 0)).is_empty());
    assert_eq!(g.cell(Vector::new(199, 200)), (0, 1));
}

#[test]
fn grid_cells_round_down() {
    let g = SpacialGrid::new(DEFAULT_CELL_SIZE);
    assert_eq!(g.cell(Vector::new(0, 199)), (0, 0));
    assert_eq!(g.cell(Vector::new(200, -1)), (1, -1));
    assert_eq!(g.cell(Vector::new(-200, -201)), (-1, -2));
    assert_eq!(g.cell(Vector::new(i32::MIN, i32::MAX)), (-10737419, 10737418));
}

#[test]
fn grid_query_covers_neighbors() {
    let mut g = SpacialGrid::new(200);
    g.insert(id(1), Vector::new(10, 10));
    g.insert(id(2), Vector::new(390, 390));
    g.insert(id(3), Vector::new(401, 0));
    g.insert(id(4), Vector::new(-10, -10));
    let q = g.query(Vector::new(10, 10));
    assert_eq!(q, vec![id(4), id(1), id(2)]);
    let far = g.query(Vector::new(5000, 5000));
    assert!(far.is_empty());
}

#[test]
fn grid_remove_hides_entity_from_queries() {
    let mut g = SpacialGrid::new(200);
    g.insert(id(1), Vector::new(10, 10));
    g.insert(id(2), Vector::new(20, 20));
    g.remove(id(1), Vector::new(150, 150));
    for x in [-300, 0, 300] {
        for y in [-300, 0, 300] {
            assert!(!g.query(Vector::new(x, y)).contains(&id(1)));
        }
    }
    assert_eq!(g.query(Vector::new(0, 0)), vec![id(2)]);
}

#[test]
fn grid_update_within_cell_changes_nothing() {
    let mut g = SpacialGrid::new(200);
    g.insert(id(1), Vector::new(10, 10));
    g.insert(id(2), Vector::new(20, 20));
    let before = g.query(Vector::new(0, 0));
    g.update(id(1), Vector::new(10, 10), Vector::new(190, 5));
    assert_eq!(g.query(Vector::new(0, 0)), before);
    assert_eq!(before, vec![id(1), id(2)]);
}

#[test]
fn grid_update_moves_between_cells() {
    let mut g = SpacialGrid::new(200);
    g.insert(id(1), Vector::new(10, 10));
    g.update(id(1), Vector::new(10, 10), Vector::new(1000, 1000));
    assert!(g.query(Vector::new(0, 0)).is_empty());
    assert_eq!(g.query(Vector::new(1000, 1000)), vec![id(1)]);
}

#[test]
fn grid_retain_drops_failing_ids() {
    let mut g = SpacialGrid::new(200);
    g.insert(id(1), Vector::new(10, 10));
    g.insert(id(2), Vector::new(10, 10));
    g.insert(id(3), Vector::new(250, 10));
    g.insert(id(4), Vector::new(-250, 10));
    g.retain(|e: &EntityId| e.index % 2 == 1);
    assert_eq!(g.query(Vector::new(10, 10)), vec![id(1), id(3)]);
    assert!(!g.query(Vector::new(-250, 10)).contains(&id(4)));
    assert!(!g.query(Vector::new(10, 10)).contains(&id(2)));
}

fn state(i: u32, x: i32, y: i32, v: InertiaVolume) -> BodyState {
    BodyState { entity: id(i), position: Vector::new(x, y), volume: v }
}

#[test]
fn frame_finds_contacts_both_ways() {
    let mut g = SpacialGrid::new(200);
    g.insert(id(1), Vector::new(0, 0));
    g.insert(id(2), Vector::new(1, 0));
    g.insert(id(3), Vector::new(100, 100));
    g.insert(id(9), Vector::new(0, 0));
    let bodies = vec![
        state(1, 0, 0, body(1, 1, 0, 0)),
        state(2, 1, 0, body(1, 1, 0, 0)),
        state(3, 100, 100, body(1, 1, 0, 0)),
    ];
    let events = generate_collisions(&g, &bodies, 16_667);
    assert_eq!(events.len(), 2);
    assert_eq!((events[0].e0, events[0].e1), (id(1), id(2)));
    assert_eq!((events[1].e0, events[1].e1), (id(2), id(1)));
    assert_eq!(events[0].location, Vector::new(0, 0));
    assert_eq!(events[1].location, Vector::new(1, 0));
}

#[test]
fn frame_contact_location_follows_the_body() {
    let mut g = SpacialGrid::new(200);
    g.insert(id(1), Vector::new(0, 0));
    g.insert(id(2), Vector::new(100, 0));
    let bodies = vec![state(1, 0, 0, body(1, 5, 1000, 0)), state(2, 100, 0, body(1, 5, -1000, 0))];
    let events = generate_collisions(&g, &bodies, 50_000);
    assert_eq!(events.len(), 2);
    assert_eq!(events[0].location, Vector::new(45, 0));
    assert_eq!(events[1].location, Vector::new(55, 0));
}

#[test]
fn maintain_places_moves_and_drops() {
    let mut g = SpacialGrid::new(200);
    g.insert(id(7), Vector::new(0, 0));
    let bodies = vec![
        PlacedBody { entity: id(1), position: Vector::new(10, 10), previous: None },
        PlacedBody {
            entity: id(2),
            position: Vector::new(900, 900),
            previous: Some(SpacialReference(Vector::new(20, 20))),
        },
    ];
    g.insert(id(2), Vector::new(20, 20));
    let refs = maintain_spacial_grid(&mut g, &bodies);
    assert_eq!(refs, vec![SpacialReference(Vector::new(10, 10)), SpacialReference(Vector::new(900, 900))]);
    assert_eq!(g.query(Vector::new(0, 0)), vec![id(1)]);
    assert_eq!(g.query(Vector::new(900, 900)), vec![id(2)]);
}

#[test]
fn integrate_moves_by_velocity() {
    assert_eq!(advance_position(Vector::new(0, 0), Vector::new(1000, -1000), 500_000), Vector::new(500, -500));
    let mut bodies = vec![state(1, 10, 10, body(1, 1, 60, -30))];
    apply_velocity(&mut bodies, 1_000_000 / 60);
    assert_eq!(bodies[0].position, Vector::new(10, 10));
    apply_velocity(&mut bodies, 100_000);
    assert_eq!(bodies[0].position, Vector::new(16, 7));
    assert_eq!(bodies[0].entity, id(1));
}
