//! The eight compass growth directions and their geometric offset rules.
//!
//! A branch grown at recursion level `level` moves `pow2(level)` fractal units
//! along one axis (cardinal directions), or `pow2(level)` diagonal half-units
//! — that is, `pow2(level) / sqrt(2)` real units — along each axis (diagonal
//! directions). The per-axis diagonal component is scaled by `1 / sqrt(2)` on
//! purpose, so that a diagonal step's Euclidean length equals a cardinal
//! step's length; see `delta_len_sq_x2`.

use vstd::prelude::*;
use vstd::arithmetic::power2::pow2;
use vstd::arithmetic::power2::lemma2_to64;
use vstd::arithmetic::power2::lemma2_to64_rest;
use vstd::arithmetic::power2::lemma_pow2_strictly_increases;
use vstd::arithmetic::power2::lemma_pow2_unfold;
use crate::geometry::FracCoord;

verus! {

/// A compass heading a branch segment can extend toward, indexed 0 to 7
/// counter-clockwise from `Left`.
#[derive(Clone, Copy, Debug, PartialEq, Eq, Structural)]
pub enum GrowthDirection {
    Left,
    UpperLeft,
    Up,
    UpperRight,
    Right,
    LowerRight,
    Down,
    LowerLeft,
}

/// The position of a direction in the fixed 0..8 ordering.
pub open spec fn dir_index(d: GrowthDirection) -> int {
    match d {
        GrowthDirection::Left => 0,
        GrowthDirection::UpperLeft => 1,
        GrowthDirection::Up => 2,
        GrowthDirection::UpperRight => 3,
        GrowthDirection::Right => 4,
        GrowthDirection::LowerRight => 5,
        GrowthDirection::Down => 6,
        GrowthDirection::LowerLeft => 7,
    }
}

/// The direction at position `i` of the fixed ordering (total: indices outside
/// 0..8 fall back to `Left`, but are never used).
pub open spec fn dir_at(i: int) -> GrowthDirection {
    if i == 1 {
        GrowthDirection::UpperLeft
    } else if i == 2 {
        GrowthDirection::Up
    } else if i == 3 {
        GrowthDirection::UpperRight
    } else if i == 4 {
        GrowthDirection::Right
    } else if i == 5 {
        GrowthDirection::LowerRight
    } else if i == 6 {
        GrowthDirection::Down
    } else if i == 7 {
        GrowthDirection::LowerLeft
    } else {
        GrowthDirection::Left
    }
}

/// Offset of one branch segment, in the exact coordinate decomposition of
/// [`FracCoord`]: `xw`/`yw` count whole units, `xd`/`yd` count diagonal
/// half-units (`1 / sqrt(2)` real units) on the x and y axes. The y axis
/// points down, so `Up` decreases y.
pub ghost struct StepDelta {
    pub xw: int,
    pub xd: int,
    pub yw: int,
    pub yd: int,
}

/// The offset a segment grown in direction `d` at recursion level `level`
/// adds to its start point.
pub open spec fn step_delta(d: GrowthDirection, level: nat) -> StepDelta {
    let m = pow2(level) as int;
    match d {
        GrowthDirection::Left => StepDelta { xw: -m, xd: 0, yw: 0, yd: 0 },
        GrowthDirection::UpperLeft => StepDelta { xw: 0, xd: -m, yw: 0, yd: -m },
        GrowthDirection::Up => StepDelta { xw: 0, xd: 0, yw: -m, yd: 0 },
        GrowthDirection::UpperRight => StepDelta { xw: 0, xd: m, yw: 0, yd: -m },
        GrowthDirection::Right => StepDelta { xw: m, xd: 0, yw: 0, yd: 0 },
        GrowthDirection::LowerRight => StepDelta { xw: 0, xd: m, yw: 0, yd: m },
        GrowthDirection::Down => StepDelta { xw: 0, xd: 0, yw: m, yd: 0 },
        GrowthDirection::LowerLeft => StepDelta { xw: 0, xd: -m, yw: 0, yd: m },
    }
}

/// Twice the squared Euclidean length of an offset whose per-axis whole and
/// diagonal parts never mix (true of every [`step_delta`]): the real squared
/// length is `(xw + xd/sqrt(2))^2 + (yw + yd/sqrt(2))^2`, which equals
/// `xw^2 + yw^2 + (xd^2 + yd^2) / 2` when `xw*xd == 0` and `yw*yd == 0`.
pub open spec fn delta_len_sq_x2(dl: StepDelta) -> int {
    2 * (dl.xw * dl.xw + dl.yw * dl.yw) + dl.xd * dl.xd + dl.yd * dl.yd
}

impl GrowthDirection {
    /// The direction's position in the fixed ordering, as a machine integer.
    pub fn index(&self) -> (r: u8)
        ensures
            r as int == dir_index(*self),
    {
        match self {
            GrowthDirection::Left => 0,
            GrowthDirection::UpperLeft => 1,
            GrowthDirection::Up => 2,
            GrowthDirection::UpperRight => 3,
            GrowthDirection::Right => 4,
            GrowthDirection::LowerRight => 5,
            GrowthDirection::Down => 6,
            GrowthDirection::LowerLeft => 7,
        }
    }

    /// The direction at position `i` of the fixed ordering.
    pub fn from_index(i: u8) -> (d: GrowthDirection)
        requires
            i < 8,
        ensures
            d == dir_at(i as int),
            dir_index(d) == i as int,
    {
        match i {
            0 => GrowthDirection::Left,
            1 => GrowthDirection::UpperLeft,
            2 => GrowthDirection::Up,
            3 => GrowthDirection::UpperRight,
            4 => GrowthDirection::Right,
            5 => GrowthDirection::LowerRight,
            6 => GrowthDirection::Down,
            _ => GrowthDirection::LowerLeft,
        }
    }
}

/// `pow2(level)` as a machine integer.
pub fn pow2_i64(level: u32) -> (m: i64)
    requires
        level <= 61,
    ensures
        m as int == pow2(level as nat),
        m >= 1,
{
    let mut m: i64 = 1;
    let mut k: u32 = 0;
    proof {
        lemma2_to64();
    }
    while k < level
        invariant
            k <= level,
            level <= 61,
            m as int == pow2(k as nat),
            m >= 1,
        decreases level - k,
    {
        proof {
            lemma2_to64();
            lemma2_to64_rest();
            if (k as nat) < 61 {
                lemma_pow2_strictly_increases(k as nat, 61);
            }
            lemma_pow2_unfold((k + 1) as nat);
        }
        m = m * 2;
        k = k + 1;
    }
    m
}

/// `c` is far enough from the `i64` edge that every coordinate a generation
/// call at `level` can reach from it still fits: the steps of one recursive
/// chain sum to less than `pow2(level + 1)` per component.
pub open spec fn comp_ok(c: int, level: nat) -> bool {
    &&& -0x4000_0000_0000_0000 + pow2((level + 1) as nat) <= c
    &&& c <= 0x4000_0000_0000_0000 - pow2((level + 1) as nat)
}

/// Both coordinates of a start point leave room for a generation call at
/// `level`.
pub open spec fn coords_ok(x: FracCoord, y: FracCoord, level: nat) -> bool {
    &&& comp_ok(x.whole as int, level)
    &&& comp_ok(x.diag as int, level)
    &&& comp_ok(y.whole as int, level)
    &&& comp_ok(y.diag as int, level)
}

/// The end point of a segment grown from `(x, y)` in direction `d` at
/// recursion level `level`, per the direction model.
pub fn segment_end(x: FracCoord, y: FracCoord, level: u32, d: GrowthDirection) -> (e: (
    FracCoord,
    FracCoord,
))
    requires
        level <= 61,
        coords_ok(x, y, level as nat),
    ensures
        e.0.whole as int == x.whole as int + step_delta(d, level as nat).xw,
        e.0.diag as int == x.diag as int + step_delta(d, level as nat).xd,
        e.1.whole as int == y.whole as int + step_delta(d, level as nat).yw,
        e.1.diag as int == y.diag as int + step_delta(d, level as nat).yd,
{
    let m = pow2_i64(level);
    proof {
        lemma_pow2_unfold((level + 1) as nat);
    }
    match d {
        GrowthDirection::Left => (FracCoord { whole: x.whole - m, diag: x.diag }, y),
        GrowthDirection::UpperLeft => (
            FracCoord { whole: x.whole, diag: x.diag - m },
            FracCoord { whole: y.whole, diag: y.diag - m },
        ),
        GrowthDirection::Up => (x, FracCoord { whole: y.whole - m, diag: y.diag }),
        GrowthDirection::UpperRight => (
            FracCoord { whole: x.whole, diag: x.diag + m },
            FracCoord { whole: y.whole, diag: y.diag - m },
        ),
        GrowthDirection::Right => (FracCoord { whole: x.whole + m, diag: x.diag }, y),
        GrowthDirection::LowerRight => (
            FracCoord { whole: x.whole, diag: x.diag + m },
            FracCoord { whole: y.whole, diag: y.diag + m },
        ),
        GrowthDirection::Down => (x, FracCoord { whole: y.whole + m, diag: y.diag }),
        GrowthDirection::LowerLeft => (
            FracCoord { whole: x.whole, diag: x.diag - m },
            FracCoord { whole: y.whole, diag: y.diag + m },
        ),
    }
}

} // verus!
