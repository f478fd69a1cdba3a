//! Points and anchors on a page, in whole pixels.
use vstd::prelude::*;

verus! {

/// A pixel position: `x` to the right, `y` downwards.
#[derive(Clone, Copy, Debug, PartialEq, Eq, Structural)]
pub struct Point {
    pub x: u32,
    pub y: u32,
}

impl Point {
    pub fn new(x: u32, y: u32) -> (p: Point)
        ensures
            p == (Point { x: x, y: y }),
    {
        Point { x, y }
    }
}

/// The box of a recognised word, given by two opposite corners.
#[derive(Clone, Copy, Debug, PartialEq, Eq, Structural)]
pub struct Anchor {
    pub top_left: Point,
    pub bottom_right: Point,
}

impl Anchor {
    pub fn new(top_left: Point, bottom_right: Point) -> (a: Anchor)
        ensures
            a == (Anchor { top_left: top_left, bottom_right: bottom_right }),
    {
        Anchor { top_left, bottom_right }
    }
}

} // verus!
