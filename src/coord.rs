use vstd::prelude::*;

verus! {

/// A cell of the grid: column `x`, row `y`.
#[derive(Clone, Copy, Debug, PartialEq, Eq, Structural)]
pub struct Coord {
    pub y: usize,
    pub x: usize,
}

impl Coord {
    pub fn new(x: usize, y: usize) -> (r: Self)
        ensures
            r.x == x,
            r.y == y,
    {
        Coord { x: x, y: y }
    }
}

} // verus!
