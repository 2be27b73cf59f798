//! Shared helpers: grid constants, overlap tests, and the exact arithmetic
//! the movement systems use.
//!
//! Coordinate arithmetic wraps around on overflow; [`wrap_i32`] is the
//! mathematical account of that wrap-around, and the executable helpers are
//! proved against it.  Divisions used by the systems truncate toward zero,
//! modelled by [`div_trunc`].

use vstd::prelude::*;

verus! {

use crate::components::{Collider, Pos};

/// Width and height of one tile, in pixels.
pub const TILE_SIZE: i32 = 16;

/// Number of tiles in one row of the level grid.
pub const LEVEL_WIDTH: usize = 16;

/// The value an `i32` computation wraps to: the representative of `x` modulo
/// `2^32` that lies within the `i32` range.
pub open spec fn wrap_i32(x: int) -> int
    decreases (if x < 0 {
        -x
    } else {
        x + 1
    }),
{
    if x < i32::MIN {
        wrap_i32(x + 0x1_0000_0000)
    } else if x > i32::MAX {
        wrap_i32(x - 0x1_0000_0000)
    } else {
        x
    }
}

/// Division truncating toward zero (the behavior of `/` on machine integers),
/// as opposed to the flooring division of spec arithmetic.
pub open spec fn div_trunc(a: int, b: int) -> int
    recommends
        b > 0,
{
    if a >= 0 {
        a / b
    } else {
        -((-a) / b)
    }
}

/// The sign of `v`: `-1`, `0` or `1`.
pub open spec fn signum(v: int) -> int {
    if v > 0 {
        1
    } else if v < 0 {
        -1
    } else {
        0
    }
}

/// Wrapping addition of two coordinates.
pub fn i32_wadd(a: i32, b: i32) -> (r: i32)
    ensures
        r as int == wrap_i32(a + b),
        i32::MIN <= a + b <= i32::MAX ==> r as int == a + b,
{
    proof {
        reveal_with_fuel(wrap_i32, 3);
    }
    let s: i64 = a as i64 + b as i64;
    if s > i32::MAX as i64 {
        (s - 0x1_0000_0000) as i32
    } else if s < i32::MIN as i64 {
        (s + 0x1_0000_0000) as i32
    } else {
        s as i32
    }
}

/// Wrapping subtraction of two coordinates.
pub fn i32_wsub(a: i32, b: i32) -> (r: i32)
    ensures
        r as int == wrap_i32(a - b),
        i32::MIN <= a - b <= i32::MAX ==> r as int == a - b,
{
    proof {
        reveal_with_fuel(wrap_i32, 3);
    }
    let s: i64 = a as i64 - b as i64;
    if s > i32::MAX as i64 {
        (s - 0x1_0000_0000) as i32
    } else if s < i32::MIN as i64 {
        (s + 0x1_0000_0000) as i32
    } else {
        s as i32
    }
}

/// Wrapping doubling of a coordinate.
pub fn i32_wdouble(a: i32) -> (r: i32)
    ensures
        r as int == wrap_i32(2 * a),
        i32::MIN <= 2 * a <= i32::MAX ==> r as int == 2 * a,
{
    proof {
        reveal_with_fuel(wrap_i32, 3);
    }
    let s: i64 = 2 * (a as i64);
    if s > i32::MAX as i64 {
        (s - 0x1_0000_0000) as i32
    } else if s < i32::MIN as i64 {
        (s + 0x1_0000_0000) as i32
    } else {
        s as i32
    }
}

/// Truncating division by three, used by the knockback rule.
pub fn i32_div3(m: i32) -> (r: i32)
    ensures
        r as int == div_trunc(m as int, 3),
{
    let w = m as i64;
    if w >= 0 {
        (w / 3) as i32
    } else {
        (-((-w) / 3)) as i32
    }
}

/// Truncating division by [`TILE_SIZE`], mapping a pixel coordinate to a tile
/// coordinate.
pub fn tile_coord(v: i32) -> (t: i32)
    ensures
        t as int == div_trunc(v as int, TILE_SIZE as int),
{
    let w = v as i64;
    if w >= 0 {
        (w / 16) as i32
    } else {
        (-((-w) / 16)) as i32
    }
}

/// The sign of a difference computed without overflow.
pub fn signum_i64(v: i64) -> (s: i32)
    ensures
        s as int == signum(v as int),
{
    if v > 0 {
        1
    } else if v < 0 {
        -1
    } else {
        0
    }
}

/// Whether two axis-aligned bounding boxes overlap (edges touching counts).
pub open spec fn aabb_spec(pos1: Pos, coll1: Collider, pos2: Pos, coll2: Collider) -> bool {
    &&& pos1.x <= pos2.x + coll2.w
    &&& pos1.x + coll1.w >= pos2.x
    &&& pos1.y <= pos2.y + coll2.h
    &&& pos1.y + coll1.h >= pos2.y
}

/// Axis-aligned bounding-box overlap test.
pub fn aabb(pos1: Pos, coll1: Collider, pos2: Pos, coll2: Collider) -> (b: bool)
    ensures
        b == aabb_spec(pos1, coll1, pos2, coll2),
{
    let x1 = pos1.x as i64;
    let y1 = pos1.y as i64;
    let x2 = pos2.x as i64;
    let y2 = pos2.y as i64;
    let w1 = coll1.w as i64;
    let h1 = coll1.h as i64;
    let w2 = coll2.w as i64;
    let h2 = coll2.h as i64;
    x1 <= x2 + w2 && x1 + w1 >= x2 && y1 <= y2 + h2 && y1 + h1 >= y2
}

} // verus!
