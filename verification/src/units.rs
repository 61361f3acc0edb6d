//! Fixed-point world coordinates.
//!
//! World positions and distances are kept in integer subunits, so that every
//! per-tick translation is exact. A step of length `m` along a diagonal moves
//! each axis by `m / sqrt(2)`, which no plain integer holds; a coordinate is
//! therefore the exact value `base + diag / sqrt(2)`, with both parts in
//! subunits. Cardinal steps change `base` alone and diagonal steps change
//! `diag` alone, so addition of a step is component-wise and exact.

use vstd::prelude::*;

verus! {

/// Number of fixed-point subunits in one world unit.
pub const SUBUNITS_PER_UNIT: u64 = 1000;

/// Side length of one map tile, in subunits (ten world units).
pub const TILE_SIZE: u64 = 10 * SUBUNITS_PER_UNIT;

/// Largest absolute value a coordinate part may reach before a tick.
pub const COORD_LIMIT: i64 = 0x4000_0000_0000_0000;

/// Largest step length, in subunits, that one tick may attempt.
pub const MAGNITUDE_LIMIT: u64 = 0x4000_0000;

/// One axis coordinate: the exact value `base + diag / sqrt(2)`, in subunits.
#[derive(Clone, Copy, PartialEq, Eq, Structural, Debug)]
pub struct Coord {
    pub base: i64,
    pub diag: i64,
}

/// A planar position or displacement, one `Coord` per axis.
#[derive(Clone, Copy, PartialEq, Eq, Structural, Debug)]
pub struct Vec2 {
    pub x: Coord,
    pub y: Coord,
}

/// Ghost image of a `Coord`: the same two parts as unbounded integers.
pub struct CoordModel {
    pub base: int,
    pub diag: int,
}

/// Ghost image of a `Vec2`.
pub struct Vec2Model {
    pub x: CoordModel,
    pub y: CoordModel,
}

impl View for Coord {
    type V = CoordModel;

    open spec fn view(&self) -> CoordModel {
        CoordModel { base: self.base as int, diag: self.diag as int }
    }
}

impl View for Vec2 {
    type V = Vec2Model;

    open spec fn view(&self) -> Vec2Model {
        Vec2Model { x: self.x@, y: self.y@ }
    }
}

/// The ghost image of the world origin.
pub open spec fn vec2_model_zero() -> Vec2Model {
    Vec2Model { x: CoordModel { base: 0, diag: 0 }, y: CoordModel { base: 0, diag: 0 } }
}

/// Whether one part of the coordinate is zero. Every per-tick step is pure in
/// this sense: a cardinal step has `diag == 0`, a diagonal step `base == 0`.
pub open spec fn axis_pure(c: CoordModel) -> bool {
    c.base == 0 || c.diag == 0
}

/// Twice the squared Euclidean length of `v`, in squared subunits, provided
/// both components are `axis_pure`. A component `base + diag / sqrt(2)`
/// squares to `base * base + diag * diag / 2 + base * diag * sqrt(2)`; with
/// one part zero the irrational term vanishes and twice the square is
/// `2 * base * base + diag * diag`.
pub open spec fn double_norm_sq(v: Vec2Model) -> int {
    2 * v.x.base * v.x.base + v.x.diag * v.x.diag + 2 * v.y.base * v.y.base + v.y.diag
        * v.y.diag
}

/// Component-wise difference `a - b` of two positions.
pub open spec fn model_sub(a: Vec2Model, b: Vec2Model) -> Vec2Model {
    Vec2Model {
        x: CoordModel { base: a.x.base - b.x.base, diag: a.x.diag - b.x.diag },
        y: CoordModel { base: a.y.base - b.y.base, diag: a.y.diag - b.y.diag },
    }
}

/// Both parts of the coordinate are within `COORD_LIMIT`.
pub open spec fn coord_in_bounds(c: Coord) -> bool {
    -COORD_LIMIT <= c.base <= COORD_LIMIT && -COORD_LIMIT <= c.diag <= COORD_LIMIT
}

/// Both coordinates of the position are within `COORD_LIMIT`.
pub open spec fn vec2_in_bounds(v: Vec2) -> bool {
    coord_in_bounds(v.x) && coord_in_bounds(v.y)
}

impl Coord {
    /// The origin of one axis.
    pub fn zero() -> (c: Coord)
        ensures
            c.base == 0,
            c.diag == 0,
    {
        Coord { base: 0, diag: 0 }
    }

    /// Exact component-wise sum.
    pub fn plus(self, other: Coord) -> (c: Coord)
        requires
            i64::MIN <= self.base + other.base <= i64::MAX,
            i64::MIN <= self.diag + other.diag <= i64::MAX,
        ensures
            c.base == self.base + other.base,
            c.diag == self.diag + other.diag,
    {
        Coord { base: self.base + other.base, diag: self.diag + other.diag }
    }
}

impl Vec2 {
    /// The world origin.
    pub fn zero() -> (v: Vec2)
        ensures
            v@ == (Vec2Model {
                x: CoordModel { base: 0, diag: 0 },
                y: CoordModel { base: 0, diag: 0 },
            }),
    {
        Vec2 { x: Coord::zero(), y: Coord::zero() }
    }

    /// Exact translation by the displacement `d`.
    pub fn translate(self, d: Vec2) -> (v: Vec2)
        requires
            i64::MIN <= self.x.base + d.x.base <= i64::MAX,
            i64::MIN <= self.x.diag + d.x.diag <= i64::MAX,
            i64::MIN <= self.y.base + d.y.base <= i64::MAX,
            i64::MIN <= self.y.diag + d.y.diag <= i64::MAX,
        ensures
            v.x.base == self.x.base + d.x.base,
            v.x.diag == self.x.diag + d.x.diag,
            v.y.base == self.y.base + d.y.base,
            v.y.diag == self.y.diag + d.y.diag,
    {
        Vec2 { x: self.x.plus(d.x), y: self.y.plus(d.y) }
    }
}

} // verus!
