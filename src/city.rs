//! Cities and the distance between two of them.
use vstd::prelude::*;

verus! {

/// A city at integer coordinates.
#[derive(Clone, Copy, Debug)]
pub struct City {
    pub x: i32,
    pub y: i32,
}

/// The squared Euclidean distance between two cities.
pub open spec fn squared_distance(a: City, b: City) -> nat {
    ((a.x - b.x) * (a.x - b.x) + (a.y - b.y) * (a.y - b.y)) as nat
}

/// `r` is the square root of `v`, rounded down.
pub open spec fn is_floor_sqrt(r: nat, v: nat) -> bool {
    r * r <= v && v < (r + 1) * (r + 1)
}

/// The square root of `v`, rounded down.
pub open spec fn floor_sqrt(v: nat) -> nat {
    choose|r: nat| is_floor_sqrt(r, v)
}

/// The Euclidean distance between two cities, rounded down to a whole unit.
pub open spec fn distance(a: City, b: City) -> nat {
    floor_sqrt(squared_distance(a, b))
}

/// The rounded-down square root is the only value with its defining property.
pub proof fn lemma_floor_sqrt_unique(r: nat, v: nat)
    requires
        is_floor_sqrt(r, v),
    ensures
        floor_sqrt(v) == r,
{
    let s = floor_sqrt(v);
    assert(is_floor_sqrt(s, v));
    if s < r {
        assert((s + 1) * (s + 1) <= r * r) by (nonlinear_arith)
            requires
                s + 1 <= r,
        ;
    } else if r < s {
        assert((r + 1) * (r + 1) <= s * s) by (nonlinear_arith)
            requires
                r + 1 <= s,
        ;
    }
}

impl City {
    pub fn new(x: i32, y: i32) -> (r: City)
        ensures
            r.x == x,
            r.y == y,
    {
        City { x, y }
    }
}

/// The square root of `v`, rounded down, found by bisection.
fn floor_sqrt_exec(v: u128) -> (r: u64)
    ensures
        is_floor_sqrt(r as nat, v as nat),
{
    let mut lo: u128 = 0;
    let mut hi: u128 = 0x1_0000_0000_0000_0000;
    assert(v < hi * hi) by (nonlinear_arith)
        requires
            hi == 0x1_0000_0000_0000_0000u128,
            v <= u128::MAX,
    ;
    while hi - lo > 1
        invariant
            lo < hi <= 0x1_0000_0000_0000_0000,
            lo * lo <= v,
            v < hi * hi,
        decreases hi - lo,
    {
        let mid: u128 = lo + (hi - lo) / 2;
        assert(mid * mid <= u128::MAX) by (nonlinear_arith)
            requires
                mid < 0x1_0000_0000_0000_0000,
        ;
        if mid * mid <= v {
            lo = mid;
        } else {
            hi = mid;
        }
    }
    assert(hi == lo + 1);
    lo as u64
}

/// The distance between two cities, rounded down to a whole unit.
pub fn city_distance(a: &City, b: &City) -> (r: u64)
    ensures
        r == distance(*a, *b),
        r < 0x2_0000_0000,
{
    let dx: i64 = a.x as i64 - b.x as i64;
    let dy: i64 = a.y as i64 - b.y as i64;
    let ux: u128 = if dx < 0 { (-dx) as u128 } else { dx as u128 };
    let uy: u128 = if dy < 0 { (-dy) as u128 } else { dy as u128 };
    assert(ux * ux + uy * uy < 0x4_0000_0000_0000_0000) by (nonlinear_arith)
        requires
            ux < 0x1_0000_0000,
            uy < 0x1_0000_0000,
    ;
    assert(ux * ux == dx * dx && uy * uy == dy * dy) by (nonlinear_arith)
        requires
            ux == dx || ux == -dx,
            uy == dy || uy == -dy,
    ;
    let sq: u128 = ux * ux + uy * uy;
    let r = floor_sqrt_exec(sq);
    proof {
        lemma_floor_sqrt_unique(r as nat, sq as nat);
        if r >= 0x2_0000_0000 {
            assert(r * r >= 0x4_0000_0000_0000_0000) by (nonlinear_arith)
                requires
                    r >= 0x2_0000_0000,
            ;
        }
    }
    r
}

} // verus!
