use vstd::prelude::*;

verus! {

/// The coordinate, on both axes, that places a surface far outside any
/// visible area of the host window.
pub const HIDDEN_COORD: i64 = -10000;

/// A rectangle in logical pixels, origin at the host window's top-left corner.
#[derive(Clone, Copy, Debug, PartialEq, Eq, Structural)]
pub struct Bounds {
    pub x: i64,
    pub y: i64,
    pub width: i64,
    pub height: i64,
}

/// The same size as `b`, moved to the off-screen position.
pub open spec fn offscreen_spec(b: Bounds) -> Bounds {
    Bounds { x: HIDDEN_COORD, y: HIDDEN_COORD, width: b.width, height: b.height }
}

impl Bounds {
    pub fn new(x: i64, y: i64, width: i64, height: i64) -> (r: Bounds)
        ensures
            r == (Bounds { x, y, width, height }),
    {
        Bounds { x, y, width, height }
    }

    /// Keeps the size, moves the surface off-screen.
    pub fn offscreen(&self) -> (r: Bounds)
        ensures
            r == offscreen_spec(*self),
    {
        Bounds { x: HIDDEN_COORD, y: HIDDEN_COORD, width: self.width, height: self.height }
    }

    /// Whether this rectangle sits at the off-screen position.
    pub fn is_offscreen(&self) -> (r: bool)
        ensures
            r == (self.x == HIDDEN_COORD && self.y == HIDDEN_COORD),
    {
        self.x == HIDDEN_COORD && self.y == HIDDEN_COORD
    }
}

} // verus!
