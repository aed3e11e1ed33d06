//! Points of the integer plane and the spiral values placed on them.

use vstd::prelude::*;

verus! {

/// A point of the plane; the spiral's centre is `(0, 0)`.
#[derive(Clone, Copy, Debug, Default, PartialEq, Eq, Structural)]
pub struct Coordinate {
    pub x: i64,
    pub y: i64,
}

impl View for Coordinate {
    type V = (int, int);

    open spec fn view(&self) -> (int, int) {
        (self.x as int, self.y as int)
    }
}

/// A point together with the spiral value that it holds.
#[derive(Clone, Copy, Debug, Default, PartialEq, Eq, Structural)]
pub struct GridValue {
    pub coord: Coordinate,
    pub value: u128,
}

} // verus!
