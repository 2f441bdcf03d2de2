//! Fixed-point units shared by collision, mesh generation and possession.
//!
//! One world unit is [`UNITS_PER_WORLD`] fixed-point steps. Angles are in
//! millionths of a radian and times in microseconds, so the same scale
//! serves all three.

use vstd::prelude::*;

verus! {

/// Fixed-point steps per world unit (and per radian, and per second).
pub const UNITS_PER_WORLD: i64 = 1_000_000;

/// Edge length of one maze cell: 0.7 world units.
pub const PIXEL_WORLD_SIZE: i64 = 700_000;

/// Half the edge length of one maze cell.
pub const HALF_PIXEL: i64 = 350_000;

/// Height of a full wall: 0.3 world units.
pub const WALL_HEIGHT: i64 = 300_000;

/// Radius of a character: 0.125 world units.
pub const PLAYER_RADIUS: i64 = 125_000;

/// Height at which characters and the camera rig travel: one radius above
/// the floor, which lies one wall height below zero.
pub const PLAYER_Y: i64 = -175_000;

/// A point of the continuous world, in fixed-point steps.
#[derive(Clone, Copy, Debug, PartialEq, Eq, Structural)]
pub struct WorldPos {
    pub x: i64,
    pub y: i64,
    pub z: i64,
}

/// A displacement in the horizontal plane, in fixed-point steps.
#[derive(Clone, Copy, Debug, PartialEq, Eq, Structural)]
pub struct Movement {
    pub x: i64,
    pub z: i64,
}

/// Squared distance between two points, over the integers.
pub open spec fn distance_squared(a: WorldPos, b: WorldPos) -> int {
    (a.x - b.x) * (a.x - b.x) + (a.y - b.y) * (a.y - b.y) + (a.z - b.z) * (a.z - b.z)
}

/// Whether `a` and `b` are strictly closer than `limit` to each other.
pub open spec fn closer_than(a: WorldPos, b: WorldPos, limit: int) -> bool {
    distance_squared(a, b) < limit * limit
}

/// Floor division by a positive divisor, for any dividend of up to 100 bits.
pub(crate) fn div_floor(a: i128, d: i128) -> (q: i128)
    requires
        0 < d <= 0x1000_0000_0000,
        -0x10_0000_0000_0000_0000_0000_0000 <= a <= 0x10_0000_0000_0000_0000_0000_0000,
    ensures
        q == a / d,
{
    if a >= 0 {
        a / d
    } else {
        let m: i128 = -a;
        let up: i128 = (m + d - 1) / d;
        assert(-up == a / d) by (nonlinear_arith)
            requires
                a < 0,
                d > 0,
                m == -a,
                up == (m + d - 1) / (d as int),
        ;
        -up
    }
}

/// Euclidean remainder by a positive divisor, for any dividend of up to 100 bits.
pub(crate) fn mod_floor(a: i128, d: i128) -> (r: i128)
    requires
        0 < d <= 0x1000_0000_0000,
        -0x10_0000_0000_0000_0000_0000_0000 <= a <= 0x10_0000_0000_0000_0000_0000_0000,
    ensures
        r == a % d,
        0 <= r < d,
{
    let q: i128 = div_floor(a, d);
    proof {
        vstd::arithmetic::div_mod::lemma_fundamental_div_mod(a as int, d as int);
        vstd::arithmetic::div_mod::lemma_mod_bound(a as int, d as int);
    }
    a - d * q
}

/// Absolute difference of two coordinates.
pub(crate) fn abs_diff(a: i64, b: i64) -> (d: i128)
    ensures
        d == if a >= b { a - b } else { b - a },
        0 <= d <= 0xffff_ffff_ffff_ffff,
{
    let wide_a: i128 = a as i128;
    let wide_b: i128 = b as i128;
    if wide_a >= wide_b {
        wide_a - wide_b
    } else {
        wide_b - wide_a
    }
}

/// Decides [`closer_than`] without overflow: a difference of `limit` or more
/// on any one axis already settles the answer.
pub fn within_reach(a: WorldPos, b: WorldPos, limit: i64) -> (near: bool)
    requires
        0 <= limit <= 0x4000_0000,
    ensures
        near == closer_than(a, b, limit as int),
{
    let dx: i128 = abs_diff(a.x, b.x);
    let dy: i128 = abs_diff(a.y, b.y);
    let dz: i128 = abs_diff(a.z, b.z);
    let lim: i128 = limit as i128;
    proof {
        let ex = a.x - b.x;
        let ey = a.y - b.y;
        let ez = a.z - b.z;
        assert(ex * ex == dx * dx && ey * ey == dy * dy && ez * ez == dz * dz) by (nonlinear_arith)
            requires
                dx == ex || dx == -ex,
                dy == ey || dy == -ey,
                dz == ez || dz == -ez,
        ;
        assert(dx * dx >= 0 && dy * dy >= 0 && dz * dz >= 0) by (nonlinear_arith);
        assert(dx >= lim ==> dx * dx >= lim * lim) by (nonlinear_arith)
            requires
                dx >= 0,
                lim >= 0,
        ;
        assert(dy >= lim ==> dy * dy >= lim * lim) by (nonlinear_arith)
            requires
                dy >= 0,
                lim >= 0,
        ;
        assert(dz >= lim ==> dz * dz >= lim * lim) by (nonlinear_arith)
            requires
                dz >= 0,
                lim >= 0,
        ;
    }
    if dx >= lim || dy >= lim || dz >= lim {
        false
    } else {
        assert(dx * dx <= 0x4000_0000 * 0x4000_0000 && dy * dy <= 0x4000_0000 * 0x4000_0000 && dz * dz
            <= 0x4000_0000 * 0x4000_0000 && lim * lim <= 0x4000_0000 * 0x4000_0000) by (nonlinear_arith)
            requires
                0 <= dx < lim,
                0 <= dy < lim,
                0 <= dz < lim,
                lim <= 0x4000_0000,
        ;
        dx * dx + dy * dy + dz * dz < lim * lim
    }
}

} // verus!
