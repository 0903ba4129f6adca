//! Two-component vectors used for pixel coordinates and sizes.

use vstd::prelude::*;

verus! {

/// A pair of unsigned pixel coordinates, or a width and a height.
pub type UVec2 = Vec2<u32>;

/// A vector of two components of the same type.
#[derive(Debug, Clone, Copy, PartialEq, Eq, Structural)]
pub struct Vec2<T> {
    pub x: T,
    pub y: T,
}

impl<T> Vec2<T> {
    /// Builds the vector `(x, y)`.
    pub fn new(x: T, y: T) -> (v: Self)
        ensures
            v.x == x,
            v.y == y,
    {
        Vec2 { x, y }
    }
}

impl Vec2<u32> {
    /// Whether this point lies outside a grid of `bounds.x` columns and `bounds.y` rows.
    pub open spec fn spec_oob(&self, bounds: UVec2) -> bool {
        self.x >= bounds.x || self.y >= bounds.y
    }

    /// Tests whether this point lies outside a grid of `bounds.x` columns and
    /// `bounds.y` rows. Column `bounds.x` and row `bounds.y` are already outside.
    #[verifier::when_used_as_spec(spec_oob)]
    pub fn oob(&self, bounds: UVec2) -> (outside: bool)
        ensures
            outside == self.spec_oob(bounds),
    {
        self.x >= bounds.x || self.y >= bounds.y
    }
}

impl core::ops::Add for Vec2<u32> {
    type Output = Vec2<u32>;

    /// Adds two vectors component by component.
    fn add(self, rhs: Vec2<u32>) -> (sum: Vec2<u32>) {
        Vec2 { x: self.x + rhs.x, y: self.y + rhs.y }
    }
}

impl vstd::std_specs::ops::AddSpecImpl for Vec2<u32> {
    open spec fn obeys_add_spec() -> bool {
        true
    }

    /// Neither component may overflow.
    open spec fn add_req(self, rhs: Vec2<u32>) -> bool {
        self.x + rhs.x <= u32::MAX && self.y + rhs.y <= u32::MAX
    }

    open spec fn add_spec(self, rhs: Vec2<u32>) -> Vec2<u32> {
        Vec2 { x: (self.x + rhs.x) as u32, y: (self.y + rhs.y) as u32 }
    }
}

} // verus!
