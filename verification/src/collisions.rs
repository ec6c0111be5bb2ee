//! Rectangles in continuous space, the inputs of the collision query.

use vstd::prelude::*;

verus! {

/// An axis-aligned rectangle in continuous (pixel) space, given by its four
/// sides. Both ends of each axis are inclusive, so `left == right` describes
/// a zero-width rectangle that still touches a tile column.
#[derive(Clone, Copy, Debug, PartialEq, Eq, Structural)]
pub struct Rectangle {
    pub left: i64,
    pub top: i64,
    pub right: i64,
    pub bottom: i64,
}

impl Rectangle {
    pub fn new(left: i64, top: i64, right: i64, bottom: i64) -> (r: Rectangle)
        ensures
            r == (Rectangle { left, top, right, bottom }),
    {
        Rectangle { left, top, right, bottom }
    }

    pub fn left(&self) -> (v: i64)
        ensures
            v == self.left,
    {
        self.left
    }

    pub fn top(&self) -> (v: i64)
        ensures
            v == self.top,
    {
        self.top
    }

    pub fn right(&self) -> (v: i64)
        ensures
            v == self.right,
    {
        self.right
    }

    pub fn bottom(&self) -> (v: i64)
        ensures
            v == self.bottom,
    {
        self.bottom
    }
}

} // verus!
