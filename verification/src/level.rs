//! The static level: axis-aligned platforms.

use vstd::prelude::*;

verus! {

/// An axis-aligned rectangle: size and top-left corner, fixed-point.
#[derive(Clone, Copy, Debug, PartialEq, Eq, Structural)]
pub struct DimensionPosition {
    pub w: i64,
    pub h: i64,
    pub x: i64,
    pub y: i64,
}

/// A piece of level geometry.
#[derive(Clone, Copy, Debug, PartialEq, Eq, Structural)]
pub enum Platform {
    /// Solid: grounds any player that overlaps it.
    Base(DimensionPosition),
    /// One-way platform; it resolves nothing so far.
    Jumpthrough(DimensionPosition),
}

/// The level that a default world is built with.
pub open spec fn spec_default_platforms() -> Seq<Platform> {
    seq![Platform::Base(DimensionPosition { w: 400000, h: 15000, x: 0, y: 70000 })]
}

/// One solid floor, 400 pixels wide and 15 high, 70 pixels below the top.
pub fn default_platforms() -> (v: Vec<Platform>)
    ensures
        v@ == spec_default_platforms(),
{
    let mut v: Vec<Platform> = Vec::new();
    v.push(Platform::Base(DimensionPosition { w: 400000, h: 15000, x: 0, y: 70000 }));
    assert(v@ =~= spec_default_platforms());
    v
}

} // verus!
