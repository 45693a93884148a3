//! Pixel-space geometry used by texture drawing.

use vstd::prelude::*;

verus! {

/// A point or extent in pixel space.
#[derive(Debug, Clone, Copy, PartialEq, Eq, Structural, Hash)]
pub struct UVec2 {
    /// The horizontal component.
    pub x: u32,
    /// The vertical component.
    pub y: u32,
}

/// An axis-aligned rectangle, stored by its two corners.
#[derive(Debug, Clone, Copy, PartialEq, Eq, Structural, Hash)]
pub struct Rectangle {
    start: UVec2,
    end: UVec2,
}

impl Rectangle {
    /// Whether the corners are ordered: the start at or before the end on
    /// both axes.
    pub closed spec fn wf(&self) -> bool {
        self.start.x <= self.end.x && self.start.y <= self.end.y
    }

    /// A rectangle from its two corners. The start must not lie past the
    /// end on either axis.
    pub fn new(start: UVec2, end: UVec2) -> (r: Rectangle)
        requires
            start.x <= end.x,
            start.y <= end.y,
        ensures
            r.spec_start() == start,
            r.spec_end() == end,
            r.wf(),
    {
        Rectangle { start, end }
    }

    /// A rectangle from its start corner and its size.
    pub fn from_size(start: UVec2, size: UVec2) -> (r: Rectangle)
        requires
            start.x + size.x <= u32::MAX,
            start.y + size.y <= u32::MAX,
        ensures
            r.spec_start() == start,
            r.spec_end() == (UVec2 {
                x: (start.x + size.x) as u32,
                y: (start.y + size.y) as u32,
            }),
            r.wf(),
    {
        Rectangle::new(start, UVec2 { x: start.x + size.x, y: start.y + size.y })
    }

    /// The corner nearest the origin.
    #[inline(always)]
    pub fn start(&self) -> (p: UVec2)
        ensures
            p == self.spec_start(),
    {
        self.start
    }

    /// The corner farthest from the origin.
    #[inline(always)]
    pub fn end(&self) -> (p: UVec2)
        ensures
            p == self.spec_end(),
    {
        self.end
    }

    /// The corner nearest the origin.
    pub closed spec fn spec_start(&self) -> UVec2 {
        self.start
    }

    /// The corner farthest from the origin.
    pub closed spec fn spec_end(&self) -> UVec2 {
        self.end
    }

    /// The horizontal extent.
    #[inline(always)]
    pub fn width(&self) -> (w: u32)
        requires
            self.wf(),
        ensures
            w == self.spec_end().x - self.spec_start().x,
    {
        self.end.x - self.start.x
    }

    /// The vertical extent.
    #[inline(always)]
    pub fn height(&self) -> (h: u32)
        requires
            self.wf(),
        ensures
            h == self.spec_end().y - self.spec_start().y,
    {
        self.end.y - self.start.y
    }

    /// Both extents at once.
    #[inline(always)]
    pub fn size(&self) -> (s: UVec2)
        requires
            self.wf(),
        ensures
            s.x == self.spec_end().x - self.spec_start().x,
            s.y == self.spec_end().y - self.spec_start().y,
    {
        UVec2 { x: self.width(), y: self.height() }
    }

    /// Whether the point lies in the rectangle, borders included.
    #[inline]
    pub fn contains(&self, point: UVec2) -> (r: bool)
        ensures
            r == (self.spec_start().x <= point.x <= self.spec_end().x && self.spec_start().y
                <= point.y <= self.spec_end().y),
    {
        self.start.x <= point.x && point.x <= self.end.x && self.start.y <= point.y && point.y
            <= self.end.y
    }

    /// Whether the two rectangles share at least one point, borders
    /// included.
    #[inline]
    pub fn intersects(&self, other: &Rectangle) -> (r: bool)
        ensures
            r == (self.spec_start().x <= other.spec_end().x && self.spec_end().x
                >= other.spec_start().x && self.spec_start().y <= other.spec_end().y
                && self.spec_end().y >= other.spec_start().y),
    {
        self.start.x <= other.end.x && self.end.x >= other.start.x && self.start.y <= other.end.y
            && self.end.y >= other.start.y
    }
}

} // verus!
