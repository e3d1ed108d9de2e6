//! Shared components and integer geometry.

use vstd::prelude::*;

verus! {

/// One world unit in position units: positions are kept in thousandths of
/// a unit, so that slow movement over a short tick is not lost to rounding.
pub const UNIT: i64 = 1000;

/// Half the side of the square playfield, in position units: every position
/// keeps both coordinates within `[-WORLD_BOUND, WORLD_BOUND]`.
pub const WORLD_BOUND: i64 = 1_073_741_824;

/// Half the side of the square the player walks in, in position units: a
/// window of up to `MAX_WINDOW_EXTENT` units a side around the player, with
/// the spawn margin beyond it, still lies on the playfield.
pub const PLAYER_BOUND: i64 = 1_040_943_824;

/// The largest window side, in world units.
pub const MAX_WINDOW_EXTENT: u32 = 65_536;

/// Hit points of an entity.
#[derive(Debug, Clone, Copy, PartialEq, Eq, Structural)]
pub struct Health(pub u32);

/// Movement speed in world units per second, which is position units per
/// millisecond.
#[derive(Debug, Clone, Copy, PartialEq, Eq, Structural)]
pub struct Speed(pub u32);

/// A point or offset in position units (thousandths of a world unit).
#[derive(Debug, Clone, Copy, PartialEq, Eq, Structural)]
pub struct IVec2 {
    pub x: i64,
    pub y: i64,
}

pub open spec fn in_world(p: IVec2) -> bool {
    &&& -WORLD_BOUND <= p.x <= WORLD_BOUND
    &&& -WORLD_BOUND <= p.y <= WORLD_BOUND
}

pub open spec fn in_player_field(p: IVec2) -> bool {
    &&& -PLAYER_BOUND <= p.x <= PLAYER_BOUND
    &&& -PLAYER_BOUND <= p.y <= PLAYER_BOUND
}

/// Squared euclidean distance.
pub open spec fn dist2(a: IVec2, b: IVec2) -> int {
    (a.x - b.x) * (a.x - b.x) + (a.y - b.y) * (a.y - b.y)
}

pub open spec fn is_floor_sqrt(r: int, n: int) -> bool {
    0 <= r && r * r <= n < (r + 1) * (r + 1)
}

/// The integer square root, rounded down.
pub open spec fn floor_sqrt(n: nat) -> nat {
    choose|r: nat| is_floor_sqrt(r as int, n as int)
}

proof fn lemma_floor_sqrt_unique(a: int, b: int, n: int)
    requires
        is_floor_sqrt(a, n),
        is_floor_sqrt(b, n),
    ensures
        a == b,
{
    if a < b {
        assert((a + 1) * (a + 1) <= b * b) by (nonlinear_arith)
            requires
                0 <= a,
                a + 1 <= b,
        ;
    } else if b < a {
        assert((b + 1) * (b + 1) <= a * a) by (nonlinear_arith)
            requires
                0 <= b,
                b + 1 <= a,
        ;
    }
}

/// Integer square root by bisection.
pub fn isqrt(n: u64) -> (r: u64)
    ensures
        is_floor_sqrt(r as int, n as int),
        r == floor_sqrt(n as nat),
{
    let mut lo: u64 = 0;
    let mut hi: u64 = 4_294_967_296;
    assert(n < hi * hi) by (nonlinear_arith)
        requires
            hi == 4_294_967_296u64,
            n <= u64::MAX,
    ;
    while hi - lo > 1
        invariant
            lo < hi <= 4_294_967_296,
            lo * lo <= n < hi * hi,
        decreases hi - lo,
    {
        let mid: u64 = lo + (hi - lo) / 2;
        assert(mid * mid < 18_446_744_073_709_551_616) by (nonlinear_arith)
            requires
                mid < 4_294_967_296,
        ;
        if mid * mid <= n {
            lo = mid;
        } else {
            hi = mid;
        }
    }
    proof {
        assert(is_floor_sqrt(lo as int, n as int));
        let r = floor_sqrt(n as nat);
        assert(is_floor_sqrt(r as int, n as int));
        lemma_floor_sqrt_unique(lo as int, r as int, n as int);
    }
    lo
}

/// Squared distance of two points of the playfield.
pub fn distance_squared(a: IVec2, b: IVec2) -> (r: u64)
    requires
        in_world(a),
        in_world(b),
    ensures
        r == dist2(a, b),
{
    let dx: i64 = a.x - b.x;
    let dy: i64 = a.y - b.y;
    assert(dx * dx <= 4_611_686_018_427_387_904) by (nonlinear_arith)
        requires
            -2_147_483_648 <= dx <= 2_147_483_648,
    ;
    assert(dy * dy <= 4_611_686_018_427_387_904) by (nonlinear_arith)
        requires
            -2_147_483_648 <= dy <= 2_147_483_648,
    ;
    assert(0 <= dx * dx && 0 <= dy * dy) by (nonlinear_arith);
    let sx: u64 = (dx * dx) as u64;
    let sy: u64 = (dy * dy) as u64;
    sx + sy
}

/// `d * s / dist`, rounded toward zero.
pub open spec fn scale_toward_zero(d: int, s: int, dist: int) -> int {
    if d >= 0 {
        d * s / dist
    } else {
        -((-d) * s / dist)
    }
}

/// The point reached by moving from `from` straight toward `to` by `step`
/// units, stopping at `to`; each coordinate of the offset is rounded toward
/// zero.
pub open spec fn step_toward_spec(from: IVec2, to: IVec2, step: int) -> IVec2 {
    let d2 = dist2(to, from);
    if d2 == 0 {
        from
    } else {
        let dist = floor_sqrt(d2 as nat) as int;
        let s = if step < dist { step } else { dist };
        IVec2 {
            x: (from.x + scale_toward_zero(to.x - from.x, s, dist)) as i64,
            y: (from.y + scale_toward_zero(to.y - from.y, s, dist)) as i64,
        }
    }
}

/// Offset `d` scaled by `s / dist` where `|d| <= dist` and `s <= dist`.
fn scale_offset(d: i64, s: u64, dist: u64) -> (r: i64)
    requires
        -2_147_483_648 <= d <= 2_147_483_648,
        0 < dist <= 4_294_967_296,
        s <= dist,
        -(dist as int) <= d <= dist,
    ensures
        r == scale_toward_zero(d as int, s as int, dist as int),
        d >= 0 ==> 0 <= r <= d,
        d < 0 ==> d <= r <= 0,
{
    let m: u64 = if d >= 0 {
        d as u64
    } else {
        (-d) as u64
    };
    assert(m * s <= 18_446_744_073_709_551_615) by (nonlinear_arith)
        requires
            m <= 2_147_483_648,
            s <= 4_294_967_296,
    ;
    let q: u64 = m * s / dist;
    assert(q <= m) by (nonlinear_arith)
        requires
            q == (m * s) as int / dist as int,
            s <= dist,
            0 < dist,
    ;
    if d >= 0 {
        q as i64
    } else {
        -(q as i64)
    }
}

/// Moves `from` toward `to` by at most `step` units without passing `to`.
pub fn step_toward(from: IVec2, to: IVec2, step: u64) -> (r: IVec2)
    requires
        in_world(from),
        in_world(to),
    ensures
        r == step_toward_spec(from, to, step as int),
        in_world(r),
{
    let d2 = distance_squared(to, from);
    if d2 == 0 {
        return from;
    }
    let dist = isqrt(d2);
    let dx: i64 = to.x - from.x;
    let dy: i64 = to.y - from.y;
    proof {
        assert(dx * dx >= 0 && dy * dy >= 0) by (nonlinear_arith);
        assert(dx * dx <= d2 && dy * dy <= d2);
        assert(dist >= 1) by (nonlinear_arith)
            requires
                d2 >= 1,
                d2 < (dist + 1) * (dist + 1),
                dist >= 0,
        ;
        assert(dist <= 4_294_967_296) by (nonlinear_arith)
            requires
                dist * dist <= d2,
                d2 <= u64::MAX,
                dist >= 0,
        ;
        assert(-(dist as int) <= dx <= dist) by (nonlinear_arith)
            requires
                dx * dx <= d2,
                d2 < (dist + 1) * (dist + 1),
                dist >= 0,
        ;
        assert(-(dist as int) <= dy <= dist) by (nonlinear_arith)
            requires
                dy * dy <= d2,
                d2 < (dist + 1) * (dist + 1),
                dist >= 0,
        ;
    }
    let s: u64 = if step < dist {
        step
    } else {
        dist
    };
    let ox = scale_offset(dx, s, dist);
    let oy = scale_offset(dy, s, dist);
    IVec2 { x: from.x + ox, y: from.y + oy }
}


/// `v` limited to the playfield.
pub open spec fn clamp_player(v: int) -> i64 {
    if v < -PLAYER_BOUND {
        (-PLAYER_BOUND) as i64
    } else if v > PLAYER_BOUND {
        PLAYER_BOUND
    } else {
        v as i64
    }
}

pub fn clamp_player_coord(v: i128) -> (r: i64)
    ensures
        r == clamp_player(v as int),
{
    if v < -(PLAYER_BOUND as i128) {
        -PLAYER_BOUND
    } else if v > PLAYER_BOUND as i128 {
        PLAYER_BOUND
    } else {
        v as i64
    }
}



/// The point `num / den` of the way from `a` to `b`, rounded toward `a`.
pub open spec fn lerp(a: int, b: int, num: int, den: int) -> int {
    a + scale_toward_zero(b - a, num, den)
}

/// A coordinate `num / den` of the way from `a` to `b`.
pub fn lerp_coord(a: i64, b: i64, num: u32, den: u32) -> (r: i64)
    requires
        -WORLD_BOUND <= a <= WORLD_BOUND,
        -WORLD_BOUND <= b <= WORLD_BOUND,
        0 < den,
        num <= den,
    ensures
        r == lerp(a as int, b as int, num as int, den as int),
        a <= b ==> a <= r <= b,
        b < a ==> b <= r <= a,
{
    let d: i64 = b - a;
    let m: u64 = if d >= 0 {
        d as u64
    } else {
        (-d) as u64
    };
    assert(m * num <= 18_446_744_073_709_551_615) by (nonlinear_arith)
        requires
            m <= 2_147_483_648,
            num <= 4_294_967_295,
    ;
    let q: u64 = m * num as u64 / den as u64;
    assert(q <= m) by (nonlinear_arith)
        requires
            q == (m * num) as int / den as int,
            num <= den,
            0 < den,
    ;
    if d >= 0 {
        a + q as i64
    } else {
        a - q as i64
    }
}

} // verus!
