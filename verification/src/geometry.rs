//! Rectangles and points as the wire carries them.
use vstd::prelude::*;

verus! {

/// A rectangle whose `right` and `bottom` are one past the last included column
/// and row.
#[derive(Debug, Clone, Copy, PartialEq, Eq, Structural)]
pub struct ExclusiveRectangle {
    pub left: u16,
    pub top: u16,
    pub right: u16,
    pub bottom: u16,
}

/// A rectangle whose `right` and `bottom` are the last included column and row.
#[derive(Debug, Clone, Copy, PartialEq, Eq, Structural)]
pub struct InclusiveRectangle {
    pub left: u16,
    pub top: u16,
    pub right: u16,
    pub bottom: u16,
}

/// A position on a surface.
#[derive(Debug, Clone, Copy, PartialEq, Eq, Structural)]
pub struct Point {
    pub x: u16,
    pub y: u16,
}

} // verus!
