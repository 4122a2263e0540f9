//! Steering an enemy toward its destination.
use crate::geometry::{dist_sq_spec, floor_sqrt, isqrt, Vec3};
use vstd::prelude::*;

verus! {

/// Within this distance of the target the speed eases down to zero.
pub const EASE_RADIUS: u64 = 2_000;

/// Beyond this distance from the target an enemy moves faster.
pub const BOOST_DISTANCE: u64 = 100_000;

/// How many times faster an enemy moves when far from its target.
pub const BOOST_FACTOR: u64 = 3;

/// How much of the gap to the desired velocity is closed per update, in hundredths.
pub const VELOCITY_BLEND: i128 = 4;

/// Division rounding toward zero, as Rust's integer division does.
pub open spec fn trunc_div(a: int, b: int) -> int {
    if a >= 0 {
        a / b
    } else {
        -((-a) / b)
    }
}

/// The speed toward a target `dist` away: boosted far away, eased to zero
/// near the target, and never more than the (boosted) base speed.
pub open spec fn eased_speed(move_speed: int, dist: int) -> int {
    let s = if dist > BOOST_DISTANCE {
        move_speed * BOOST_FACTOR
    } else {
        move_speed
    };
    let eased = s * (dist - EASE_RADIUS) / 1000;
    if eased > s {
        s
    } else if eased < 0 {
        0
    } else {
        eased
    }
}

/// One component of the velocity toward the target.
pub open spec fn desired_component(offset: int, speed: int, dist: int) -> int {
    trunc_div(offset * speed, dist)
}

/// One component of the current velocity moved part of the way toward the desired one.
pub open spec fn blended(current: int, desired: int) -> int {
    current + trunc_div((desired - current) * VELOCITY_BLEND, 100)
}

/// The velocity an enemy at `pos` moving at `current` should take to head for
/// `target`; distances are rounded down to whole milli-units.
pub open spec fn steered(pos: Vec3, target: Vec3, current: Vec3, move_speed: int) -> (int, int, int) {
    let dist = floor_sqrt(dist_sq_spec(pos, target));
    if dist == 0 {
        (0, 0, 0)
    } else {
        let s = eased_speed(move_speed, dist);
        (
            blended(current.x as int, desired_component(target.x - pos.x, s, dist)),
            blended(current.y as int, desired_component(target.y - pos.y, s, dist)),
            blended(current.z as int, desired_component(target.z - pos.z, s, dist)),
        )
    }
}

/// `steered` as a vector; the components always fit.
pub open spec fn steer_spec(pos: Vec3, target: Vec3, current: Vec3, move_speed: int) -> Vec3 {
    let (x, y, z) = steered(pos, target, current, move_speed);
    Vec3 { x: x as i64, y: y as i64, z: z as i64 }
}

fn div_toward_zero(a: i128, b: i128) -> (r: i128)
    requires
        b > 0,
        a > i128::MIN,
    ensures
        r == trunc_div(a as int, b as int),
{
    if a >= 0 {
        ((a as u128) / (b as u128)) as i128
    } else {
        -((((-a) as u128) / (b as u128)) as i128)
    }
}

/// The eased and boosted speed toward a target `dist` away.
pub fn eased_move_speed(move_speed: u32, dist: u64) -> (r: u64)
    ensures
        r == eased_speed(move_speed as int, dist as int),
        r <= move_speed * BOOST_FACTOR,
{
    let s: u64 = if dist > BOOST_DISTANCE {
        move_speed as u64 * BOOST_FACTOR
    } else {
        move_speed as u64
    };
    if dist <= EASE_RADIUS {
        assert(s * (dist - EASE_RADIUS) <= 0) by (nonlinear_arith)
            requires s >= 0, dist <= EASE_RADIUS;
        assert(s * (dist - EASE_RADIUS) / 1000 <= 0);
        return 0;
    }
    let gap: u64 = dist - EASE_RADIUS;
    assert(s * gap <= 13_000_000_000 * 18_446_744_073_709_551_615) by (nonlinear_arith)
        requires s <= 13_000_000_000, gap <= 18_446_744_073_709_551_615;
    let prod: u128 = s as u128 * gap as u128;
    let eased: u128 = prod / 1000;
    if eased > s as u128 {
        s
    } else {
        eased as u64
    }
}

fn steer_component(offset: i64, current: i64, speed: u64, dist: u64) -> (r: i64)
    requires
        -2_000_000_000 <= offset <= 2_000_000_000,
        offset * offset <= dist * dist,
        -1_000_000_000 <= current <= 1_000_000_000,
        speed <= 13_000_000_000,
        dist > 0,
    ensures
        r == blended(current as int, desired_component(offset as int, speed as int, dist as int)),
{
    assert(-26_000_000_000_000_000_000 <= offset * speed <= 26_000_000_000_000_000_000) by (nonlinear_arith)
        requires -2_000_000_000 <= offset <= 2_000_000_000, 0 <= speed <= 13_000_000_000;
    let desired: i128 = div_toward_zero(offset as i128 * speed as i128, dist as i128);
    // |offset| <= dist, so the desired component is no faster than `speed`.
    assert(-(speed as int) <= desired <= speed) by {
        lemma_desired_bound(offset as int, speed as int, dist as int);
    }
    let step: i128 = div_toward_zero((desired - current as i128) * VELOCITY_BLEND, 100);
    assert(-1_000_000_000 <= step <= 1_000_000_000) by {
        lemma_trunc_div_bound((desired - current) * VELOCITY_BLEND, 100, 1_000_000_000);
    }
    (current as i128 + step) as i64
}

proof fn lemma_trunc_div_bound(a: int, b: int, m: int)
    requires
        b > 0,
        -m * b <= a <= m * b,
        m >= 0,
    ensures
        -m <= trunc_div(a, b) <= m,
{
    assert(m * b == b * m) by (nonlinear_arith);
    if a >= 0 {
        vstd::arithmetic::div_mod::lemma_div_is_ordered(a, b * m, b);
        vstd::arithmetic::div_mod::lemma_div_multiples_vanish(m, b);
        vstd::arithmetic::div_mod::lemma_div_pos_is_pos(a, b);
    } else {
        assert(-a <= m * b) by (nonlinear_arith)
            requires -m * b <= a;
        vstd::arithmetic::div_mod::lemma_div_is_ordered(-a, b * m, b);
        vstd::arithmetic::div_mod::lemma_div_multiples_vanish(m, b);
        vstd::arithmetic::div_mod::lemma_div_pos_is_pos(-a, b);
    }
}

proof fn lemma_desired_bound(offset: int, speed: int, dist: int)
    requires
        offset * offset <= dist * dist,
        dist > 0,
        speed >= 0,
    ensures
        -speed <= trunc_div(offset * speed, dist) <= speed,
{
    assert(-dist <= offset <= dist) by (nonlinear_arith)
        requires offset * offset <= dist * dist, dist > 0;
    assert(-speed * dist <= offset * speed <= speed * dist) by (nonlinear_arith)
        requires -dist <= offset <= dist, speed >= 0;
    lemma_trunc_div_bound(offset * speed, dist, speed);
}

/// The velocity for an enemy at `pos`, currently moving at `current`, that
/// heads for `target` at `move_speed`: the speed is tripled when the target
/// is far, eased to zero close to it, and the current velocity is moved only
/// part of the way toward the desired one. At zero distance the velocity is
/// zero.
pub fn steer_velocity(pos: &Vec3, target: &Vec3, current: &Vec3, move_speed: u32) -> (r: Vec3)
    requires
        pos.in_bounds(),
        target.in_bounds(),
        current.in_bounds(),
    ensures
        (r.x as int, r.y as int, r.z as int) == steered(*pos, *target, *current, move_speed as int),
        r == steer_spec(*pos, *target, *current, move_speed as int),
{
    let dsq = pos.dist_sq(target);
    let dist = isqrt(dsq);
    if dist == 0 {
        assert(steered(*pos, *target, *current, move_speed as int) == (0int, 0int, 0int));
        return Vec3 { x: 0, y: 0, z: 0 };
    }
    let speed = eased_move_speed(move_speed, dist);
    let ox = target.x - pos.x;
    let oy = target.y - pos.y;
    let oz = target.z - pos.z;
    proof {
        assert(dsq == ox * ox + oy * oy + oz * oz) by (nonlinear_arith)
            requires
                dsq == (pos.x - target.x) * (pos.x - target.x) + (pos.y - target.y) * (pos.y
                    - target.y) + (pos.z - target.z) * (pos.z - target.z),
                ox == target.x - pos.x,
                oy == target.y - pos.y,
                oz == target.z - pos.z,
        ;
        lemma_component_within(ox as int, oy as int, oz as int, dsq as int, dist as int);
        lemma_component_within(oy as int, ox as int, oz as int, dsq as int, dist as int);
        lemma_component_within(oz as int, oy as int, ox as int, dsq as int, dist as int);
    }
    let r = Vec3 {
        x: steer_component(ox, current.x, speed, dist),
        y: steer_component(oy, current.y, speed, dist),
        z: steer_component(oz, current.z, speed, dist),
    };
    assert((r.x as int, r.y as int, r.z as int) == steered(*pos, *target, *current, move_speed as int));
    r
}

/// A component of the offset is no longer than the (integer) distance.
proof fn lemma_component_within(a: int, b: int, c: int, dsq: int, dist: int)
    requires
        dsq == a * a + b * b + c * c,
        dist * dist <= dsq < (dist + 1) * (dist + 1),
        dist >= 0,
    ensures
        a * a <= dist * dist,
{
    assert(a * a <= dsq) by (nonlinear_arith)
        requires dsq == a * a + b * b + c * c;
    let aa = if a >= 0 { a } else { -a };
    assert(aa * aa == a * a) by (nonlinear_arith)
        requires aa == a || aa == -a;
    if aa >= dist + 1 {
        assert(aa * aa >= (dist + 1) * (dist + 1)) by (nonlinear_arith)
            requires aa >= dist + 1, dist >= 0;
    }
    assert(aa * aa <= dist * dist) by (nonlinear_arith)
        requires aa <= dist, aa >= 0;
}

} // verus!
