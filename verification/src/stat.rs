//! The transform of the live piece.

use vstd::prelude::*;

verus! {

/// Where the live piece is: its pivot cell, its rotation counter and its shape.
#[derive(Clone, Copy, Debug, PartialEq, Eq)]
pub struct Stat {
    /// column of the pivot
    pub x: u16,
    /// row of the pivot
    pub y: u16,
    /// quarter turns asked for so far
    pub rotate: u8,
    /// index of the shape in the catalog
    pub typ: u8,
}

impl Stat {
    /// A transform from its four parts.
    pub fn new(x: u16, y: u16, rotate: u8, typ: u8) -> (s: Self)
        ensures
            s.x == x,
            s.y == y,
            s.rotate == rotate,
            s.typ == typ,
    {
        Stat { x, y, rotate, typ }
    }
}

} // verus!
