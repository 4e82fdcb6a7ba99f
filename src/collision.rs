//! The narrow phase: splits a frame into equal sub-ticks, walks the relative
//! motion of two bodies forward tick by tick, and reports the first tick at
//! which they touch.
use vstd::prelude::*;
use crate::body::InertiaVolume;
use crate::fixed::{div0, div_toward_zero, MICROS_PER_SECOND};
use crate::vector::Vector;

verus! {

/// The target length of one narrow-phase tick, in microseconds.
pub const COLLISION_TICK_LENGTH: u32 = 1000;

/// The most ticks walked for one pair in one frame.
pub const MAX_COLLISION_TICKS: u32 = 250;

/// The number of equal ticks that a frame of `dt` microseconds is split
/// into: enough for ticks of at most `COLLISION_TICK_LENGTH`, at least one,
/// and no more than the cap.
pub open spec fn tick_count(dt: int) -> int {
    let needed = (dt + COLLISION_TICK_LENGTH - 1) / (COLLISION_TICK_LENGTH as int);
    if needed > MAX_COLLISION_TICKS {
        MAX_COLLISION_TICKS as int
    } else if needed < 1 {
        1
    } else {
        needed
    }
}

/// One coordinate of the relative position after `k` of the `tick_count(dt)`
/// equal ticks of a frame of `dt` microseconds, times
/// `tick_count(dt) * MICROS_PER_SECOND`: the start `rel` moved by the
/// relative velocity `w` for `k * dt / tick_count(dt)` microseconds.
pub open spec fn scaled_offset(rel: int, w: int, k: int, dt: int) -> int {
    tick_count(dt) * MICROS_PER_SECOND * rel + k * dt * w
}

/// Whether two bodies whose radii add up to `radius_sum` touch after `k`
/// ticks of a frame of `dt`, starting `rel` apart (the other minus this one)
/// with relative velocity `w` (the other's velocity minus this one's).
pub open spec fn touching_at(rel: Vector, w: (int, int), radius_sum: int, k: int, dt: int) -> bool {
    let x = scaled_offset(rel.x as int, w.0, k, dt);
    let y = scaled_offset(rel.y as int, w.1, k, dt);
    let r = tick_count(dt) * MICROS_PER_SECOND * radius_sum;
    x * x + y * y <= r * r
}

/// The velocity of `b` relative to `a`.
pub open spec fn relative_velocity(a: InertiaVolume, b: InertiaVolume) -> (int, int) {
    (b.velocity.x - a.velocity.x, b.velocity.y - a.velocity.y)
}

/// The distance that `v` covers in `k` ticks of a frame of `dt`, rounded
/// toward zero.
pub open spec fn tick_displacement(v: int, k: int, dt: int) -> int {
    div0(v * k * dt, tick_count(dt) * MICROS_PER_SECOND)
}

/// The first tick up to `tick_count(dt)` at which `a` and `b`, which starts
/// `rel` away from it, touch; `None` if there is none.
pub open spec fn contact_tick(a: InertiaVolume, b: InertiaVolume, rel: Vector, dt: int) -> Option<int> {
    if exists|k: int| 0 <= k <= tick_count(dt) && #[trigger] a.touches_after(b, rel, k, dt) {
        Some(choose|k: int| 0 <= k <= tick_count(dt) && #[trigger] a.touches_after(b, rel, k, dt)
            && forall|j: int| 0 <= j < k ==> !a.touches_after(b, rel, j, dt))
    } else {
        None
    }
}

/// What `find_collision` returns is `contact_tick`.
pub proof fn lemma_find_collision_is_contact_tick(a: InertiaVolume, b: InertiaVolume, rel: Vector, dt: int, r: Option<u32>)
    requires
        match r {
            Some(k) => k <= tick_count(dt) && a.touches_after(b, rel, k as int, dt)
                && forall|j: int| 0 <= j < k ==> !a.touches_after(b, rel, j, dt),
            None => forall|j: int| 0 <= j <= tick_count(dt) ==> !a.touches_after(b, rel, j, dt),
        },
    ensures
        contact_tick(a, b, rel, dt) == (match r {
            Some(k) => Some(k as int),
            None => None::<int>,
        }),
{
    if let Some(k) = r {
        assert(0 <= k <= tick_count(dt) && a.touches_after(b, rel, k as int, dt));
        let c = choose|c: int| 0 <= c <= tick_count(dt) && #[trigger] a.touches_after(b, rel, c, dt)
            && forall|j: int| 0 <= j < c ==> !a.touches_after(b, rel, j, dt);
        if c < k {
            assert(!a.touches_after(b, rel, c, dt));
        }
        if c > k {
            assert(!a.touches_after(b, rel, k as int, dt));
        }
    }
}

/// Bodies that stay farther apart than their radii allow at every tick of
/// the frame have no contact in it.
pub proof fn lemma_separated_bodies_never_collide(a: InertiaVolume, b: InertiaVolume, rel: Vector, dt: int)
    requires
        forall|k: int| 0 <= k <= tick_count(dt) ==> !#[trigger] a.touches_after(b, rel, k, dt),
    ensures
        contact_tick(a, b, rel, dt) == None::<int>,
{
}

/// Bodies that already touch at the start of the frame have their contact
/// at tick 0, whatever their velocities.
pub proof fn lemma_touching_bodies_collide_at_once(a: InertiaVolume, b: InertiaVolume, rel: Vector, dt: int)
    requires
        a.touches_after(b, rel, 0, dt),
    ensures
        contact_tick(a, b, rel, dt) == Some(0int),
{
    assert(0 <= 0 <= tick_count(dt) && a.touches_after(b, rel, 0, dt));
    let c = choose|c: int| 0 <= c <= tick_count(dt) && #[trigger] a.touches_after(b, rel, c, dt)
        && forall|j: int| 0 <= j < c ==> !a.touches_after(b, rel, j, dt);
    if c > 0 {
        assert(!a.touches_after(b, rel, 0, dt));
    }
}

/// The contact offset of a body never goes beyond its own motion in the
/// frame: for a tick of the frame, the distance covered, times
/// `MICROS_PER_SECOND`, lies between 0 and `v * dt`.
pub proof fn lemma_contact_offset_within_motion(v: int, k: int, dt: int)
    requires
        0 <= k <= tick_count(dt),
        dt >= 0,
    ensures
        v >= 0 ==> 0 <= tick_displacement(v, k, dt) * MICROS_PER_SECOND <= v * dt,
        v < 0 ==> v * dt <= tick_displacement(v, k, dt) * MICROS_PER_SECOND <= 0,
{
    let n = tick_count(dt);
    let d = tick_displacement(v, k, dt);
    let a = v * k * dt;
    assert(n * MICROS_PER_SECOND > 0) by (nonlinear_arith)
        requires
            n >= 1,
    ;
    crate::fixed::lemma_div0_bounds(a, n * MICROS_PER_SECOND);
    if v >= 0 {
        assert(0 <= a <= v * dt * n) by (nonlinear_arith)
            requires
                a == v * k * dt,
                v >= 0,
                0 <= k <= n,
                dt >= 0,
        ;
        assert(0 <= d * MICROS_PER_SECOND <= v * dt) by (nonlinear_arith)
            requires
                0 <= d,
                d * (n * MICROS_PER_SECOND) <= a,
                a <= v * dt * n,
                n >= 1,
        ;
    } else {
        assert(v * dt * n <= a <= 0) by (nonlinear_arith)
            requires
                a == v * k * dt,
                v < 0,
                0 <= k <= n,
                dt >= 0,
        ;
        if a < 0 {
            assert(v * dt <= d * MICROS_PER_SECOND <= 0) by (nonlinear_arith)
                requires
                    d <= 0,
                    d * (n * MICROS_PER_SECOND) >= a,
                    v * dt * n <= a,
                    n >= 1,
            ;
        } else {
            assert(d == 0);
            assert(v * dt <= 0) by (nonlinear_arith)
                requires
                    v < 0,
                    dt >= 0,
            ;
        }
    }
}

impl InertiaVolume {
    /// Whether this body and `other`, which starts `other_relative` away
    /// from it, touch after `k` ticks of a frame of `dt` microseconds.
    pub open spec fn touches_after(&self, other: InertiaVolume, other_relative: Vector, k: int, dt: int) -> bool {
        touching_at(other_relative, relative_velocity(*self, other), self.radius + other.radius, k, dt)
    }

    /// Finds the first tick of a frame of `dt` microseconds, split into
    /// `tick_count(dt)` equal ticks, at which this body and `other`, which
    /// starts `other_relative` away from it, touch. Tick 0 is the start of
    /// the frame, so bodies that already touch give `Some(0)`. `None` means
    /// that they touch at none of the ticks.
    pub fn find_collision(&self, other: &InertiaVolume, other_relative: Vector, dt: u32) -> (r: Option<u32>)
        ensures
            match r {
                Some(k) => k <= tick_count(dt as int) && self.touches_after(*other, other_relative, k as int, dt as int)
                    && forall|j: int| 0 <= j < k ==> !self.touches_after(*other, other_relative, j, dt as int),
                None => forall|j: int| 0 <= j <= tick_count(dt as int) ==> !self.touches_after(*other, other_relative, j, dt as int),
            },
            contact_tick(*self, *other, other_relative, dt as int) == (match r {
                Some(k) => Some(k as int),
                None => None::<int>,
            }),
    {
        let ticks = tick_count_exec(dt);
        let n: i128 = (ticks as i128) * MICROS_PER_SECOND;
        let rsum: i128 = (self.radius as i128) + (other.radius as i128);
        assert(0 <= n * rsum <= 0x2000_0000_0000_0000) by (nonlinear_arith)
            requires
                1000000 <= n <= 250 * 1000000,
                0 <= rsum <= 0x2_0000_0000,
        ;
        let radius_sum: i128 = n * rsum;
        assert(0 <= radius_sum * radius_sum <= 0x400_0000_0000_0000_0000_0000_0000_0000) by (nonlinear_arith)
            requires
                0 <= radius_sum <= 0x2000_0000_0000_0000,
        ;
        let reach: i128 = radius_sum * radius_sum;
        let wx: i128 = (other.velocity.x as i128) - (self.velocity.x as i128);
        let wy: i128 = (other.velocity.y as i128) - (self.velocity.y as i128);
        assert(-0x1_0000_0000 * 0x1_0000_0000 <= dt * wx <= 0x1_0000_0000 * 0x1_0000_0000) by (nonlinear_arith)
            requires
                0 <= dt < 0x1_0000_0000,
                -0x1_0000_0000 <= wx <= 0x1_0000_0000,
        ;
        assert(-0x1_0000_0000 * 0x1_0000_0000 <= dt * wy <= 0x1_0000_0000 * 0x1_0000_0000) by (nonlinear_arith)
            requires
                0 <= dt < 0x1_0000_0000,
                -0x1_0000_0000 <= wy <= 0x1_0000_0000,
        ;
        let step_x: i128 = (dt as i128) * wx;
        let step_y: i128 = (dt as i128) * wy;
        assert(-0x8000_0000 * 250000000 <= n * other_relative.x <= 0x8000_0000 * 250000000) by (nonlinear_arith)
            requires
                1000000 <= n <= 250000000,
                -0x8000_0000 <= other_relative.x < 0x8000_0000,
        ;
        assert(-0x8000_0000 * 250000000 <= n * other_relative.y <= 0x8000_0000 * 250000000) by (nonlinear_arith)
            requires
                1000000 <= n <= 250000000,
                -0x8000_0000 <= other_relative.y < 0x8000_0000,
        ;
        let mut x: i128 = n * (other_relative.x as i128);
        let mut y: i128 = n * (other_relative.y as i128);
        let mut k: u32 = 0;
        let ghost w = relative_velocity(*self, *other);
        let ghost rs = self.radius + other.radius;
        proof {
            assert(scaled_offset(other_relative.x as int, w.0, 0, dt as int) == n * other_relative.x) by (nonlinear_arith)
                requires n == tick_count(dt as int) * MICROS_PER_SECOND;
            assert(scaled_offset(other_relative.y as int, w.1, 0, dt as int) == n * other_relative.y) by (nonlinear_arith)
                requires n == tick_count(dt as int) * MICROS_PER_SECOND;
        }
        loop
            invariant
                ticks == tick_count(dt as int),
                1 <= ticks <= MAX_COLLISION_TICKS,
                k <= ticks,
                step_x == dt * w.0,
                step_y == dt * w.1,
                -0x1_0000_0000 <= w.0 <= 0x1_0000_0000,
                -0x1_0000_0000 <= w.1 <= 0x1_0000_0000,
                x == scaled_offset(other_relative.x as int, w.0, k as int, dt as int),
                y == scaled_offset(other_relative.y as int, w.1, k as int, dt as int),
                radius_sum == tick_count(dt as int) * MICROS_PER_SECOND * rs,
                0 <= radius_sum <= 0x2000_0000_0000_0000,
                reach == radius_sum * radius_sum,
                w == relative_velocity(*self, *other),
                rs == self.radius + other.radius,
                forall|j: int| 0 <= j < k ==> !touching_at(other_relative, w, rs, j, dt as int),
            decreases ticks - k,
        {
            proof {
                lemma_offset_bounds(other_relative.x as int, w.0, k as int, dt as int);
                lemma_offset_bounds(other_relative.y as int, w.1, k as int, dt as int);
            }
            if -radius_sum <= x && x <= radius_sum && -radius_sum <= y && y <= radius_sum {
                proof {
                    lemma_near_squares(x as int, y as int, radius_sum as int);
                }
                if x * x + y * y <= reach {
                    proof {
                        lemma_find_collision_is_contact_tick(*self, *other, other_relative, dt as int, Some(k));
                    }
                    return Some(k);
                }
            } else {
                proof {
                    lemma_far_apart(x as int, y as int, radius_sum as int);
                }
            }
            if k == ticks {
                proof {
                    lemma_find_collision_is_contact_tick(*self, *other, other_relative, dt as int, None);
                }
                return None;
            }
            proof {
                let k1 = k + 1;
                lemma_offset_bounds(other_relative.x as int, w.0, k1 as int, dt as int);
                lemma_offset_bounds(other_relative.y as int, w.1, k1 as int, dt as int);
                assert(scaled_offset(other_relative.x as int, w.0, k1 as int, dt as int) == scaled_offset(other_relative.x as int, w.0, k as int, dt as int) + step_x) by (nonlinear_arith)
                    requires step_x == dt * w.0, k1 == k + 1;
                assert(scaled_offset(other_relative.y as int, w.1, k1 as int, dt as int) == scaled_offset(other_relative.y as int, w.1, k as int, dt as int) + step_y) by (nonlinear_arith)
                    requires step_y == dt * w.1, k1 == k + 1;
            }
            x = x + step_x;
            y = y + step_y;
            k = k + 1;
        }
    }

    /// How far this body moves in `ticks` of the `tick_count(dt)` equal
    /// ticks of a frame of `dt` microseconds: the offset from its start to
    /// the point of a contact found at that tick.
    pub fn contact_offset(&self, ticks: u32, dt: u32) -> (r: (i64, i64))
        requires
            ticks <= tick_count(dt as int),
        ensures
            r.0 == tick_displacement(self.velocity.x as int, ticks as int, dt as int),
            r.1 == tick_displacement(self.velocity.y as int, ticks as int, dt as int),
            -0x1000_0000_0000 <= r.0 <= 0x1000_0000_0000,
            -0x1000_0000_0000 <= r.1 <= 0x1000_0000_0000,
    {
        let n = tick_count_exec(dt);
        let denom: i128 = (n as i128) * MICROS_PER_SECOND;
        assert(0 <= ticks * dt <= 250 * 0x1_0000_0000) by (nonlinear_arith)
            requires
                0 <= ticks <= 250,
                0 <= dt < 0x1_0000_0000,
        ;
        let t: i128 = (ticks as i128) * (dt as i128);
        proof {
            lemma_displacement_bounds(self.velocity.x as int, ticks as int, dt as int);
            lemma_displacement_bounds(self.velocity.y as int, ticks as int, dt as int);
        }
        let dx = div_toward_zero((self.velocity.x as i128) * t, denom);
        let dy = div_toward_zero((self.velocity.y as i128) * t, denom);
        (dx as i64, dy as i64)
    }
}

/// Executable `tick_count`.
fn tick_count_exec(dt: u32) -> (r: u32)
    ensures
        r == tick_count(dt as int),
        1 <= r <= MAX_COLLISION_TICKS,
{
    let needed: u64 = ((dt as u64) + (COLLISION_TICK_LENGTH as u64) - 1) / (COLLISION_TICK_LENGTH as u64);
    if needed > MAX_COLLISION_TICKS as u64 {
        MAX_COLLISION_TICKS
    } else if needed < 1 {
        1
    } else {
        needed as u32
    }
}

/// A scaled offset at a tick of a frame fits in an `i128`.
proof fn lemma_offset_bounds(rel: int, w: int, k: int, dt: int)
    requires
        i32::MIN <= rel <= i32::MAX,
        -0x1_0000_0000 <= w <= 0x1_0000_0000,
        0 <= k <= tick_count(dt),
        0 <= dt <= u32::MAX,
    ensures
        -0x1_0000_0000 * 0x1_0000_0000 * 512 <= scaled_offset(rel, w, k, dt) <= 0x1_0000_0000 * 0x1_0000_0000 * 512,
{
    let s = scaled_offset(rel, w, k, dt);
    let n = tick_count(dt);
    assert(-0x1_0000_0000 * 0x1_0000_0000 * 512 <= s <= 0x1_0000_0000 * 0x1_0000_0000 * 512) by (nonlinear_arith)
        requires
            s == n * 1000000 * rel + k * dt * w,
            1 <= n <= 250,
            -0x8000_0000 <= rel <= 0x8000_0000,
            -0x1_0000_0000 <= w <= 0x1_0000_0000,
            0 <= k <= 250,
            0 <= dt < 0x1_0000_0000,
    ;
}

/// A coordinate farther out than `r` puts the point outside the circle of
/// radius `r`.
proof fn lemma_far_apart(x: int, y: int, r: int)
    requires
        r >= 0,
        !(-r <= x <= r && -r <= y <= r),
    ensures
        x * x + y * y > r * r,
{
    assert(x * x + y * y > r * r) by (nonlinear_arith)
        requires
            r >= 0,
            x > r || x < -r || y > r || y < -r,
    ;
}

/// Coordinates within `r` have squares that fit in an `i128`.
proof fn lemma_near_squares(x: int, y: int, r: int)
    requires
        0 <= r <= 0x2000_0000_0000_0000,
        -r <= x <= r,
        -r <= y <= r,
    ensures
        0 <= x * x <= 0x400_0000_0000_0000_0000_0000_0000_0000,
        0 <= y * y <= 0x400_0000_0000_0000_0000_0000_0000_0000,
{
    assert(0 <= x * x <= 0x400_0000_0000_0000_0000_0000_0000_0000) by (nonlinear_arith)
        requires
            0 <= r <= 0x2000_0000_0000_0000,
            -r <= x <= r,
    ;
    assert(0 <= y * y <= 0x400_0000_0000_0000_0000_0000_0000_0000) by (nonlinear_arith)
        requires
            0 <= r <= 0x2000_0000_0000_0000,
            -r <= y <= r,
    ;
}

/// The distance covered in some ticks of a frame fits the computation and
/// an `i64`.
proof fn lemma_displacement_bounds(v: int, k: int, dt: int)
    requires
        i32::MIN <= v <= i32::MAX,
        0 <= k <= tick_count(dt),
        0 <= dt <= u32::MAX,
    ensures
        -0x8000_0000 * 250 * 0x1_0000_0000 <= v * (k * dt) <= 0x8000_0000 * 250 * 0x1_0000_0000,
        v * (k * dt) == v * k * dt,
        -0x1000_0000_0000 <= tick_displacement(v, k, dt) <= 0x1000_0000_0000,
{
    assert(-0x8000_0000 * 250 * 0x1_0000_0000 <= v * (k * dt) <= 0x8000_0000 * 250 * 0x1_0000_0000) by (nonlinear_arith)
        requires
            -0x8000_0000 <= v < 0x8000_0000,
            0 <= k <= 250,
            0 <= dt < 0x1_0000_0000,
    ;
    assert(v * (k * dt) == v * k * dt) by (nonlinear_arith);
    lemma_contact_offset_within_motion(v, k, dt);
    let d = tick_displacement(v, k, dt);
    assert(-0x8000_0000 * 0x1_0000_0000 <= v * dt <= 0x8000_0000 * 0x1_0000_0000) by (nonlinear_arith)
        requires
            -0x8000_0000 <= v < 0x8000_0000,
            0 <= dt < 0x1_0000_0000,
    ;
    assert(-0x1000_0000_0000 <= d <= 0x1000_0000_0000) by (nonlinear_arith)
        requires
            v >= 0 ==> 0 <= d * 1000000 <= v * dt,
            v < 0 ==> v * dt <= d * 1000000 <= 0,
            -0x8000_0000 * 0x1_0000_0000 <= v * dt <= 0x8000_0000 * 0x1_0000_0000,
    ;
}

} // verus!
