//! Points, the viewport, and rectangles given by centre and size.

use vstd::prelude::*;

verus! {

/// A coordinate counted in halves of a unit: the value `5` stands for two
/// units and a half.
pub type Halves = i64;

/// A position in whole units.
#[derive(Clone, Copy, Debug, PartialEq, Eq, Structural)]
pub struct Point {
    pub x: i32,
    pub y: i32,
}

/// A position in halves of a unit.
#[derive(Clone, Copy, Debug, PartialEq, Eq, Structural)]
pub struct HalfPoint {
    pub x: Halves,
    pub y: Halves,
}

/// The visible drawing area, by its four bounds in whole units.
#[derive(Clone, Copy, Debug, PartialEq, Eq, Structural)]
pub struct Viewport {
    pub left: i32,
    pub right: i32,
    pub top: i32,
    pub bottom: i32,
}

impl Viewport {
    /// The area is not empty: it has a positive width and a positive height.
    pub open spec fn wf(self) -> bool {
        self.left < self.right && self.bottom < self.top
    }

    /// The origin lies in the area or on its boundary.
    pub open spec fn holds_origin(self) -> bool {
        self.left <= 0 <= self.right && self.bottom <= 0 <= self.top
    }

    /// The point lies in the area or on its boundary.
    pub open spec fn holds(self, p: Point) -> bool {
        self.left <= p.x <= self.right && self.bottom <= p.y <= self.top
    }

    /// Whether the area has a positive width and a positive height.
    pub fn is_wf(&self) -> (ok: bool)
        ensures
            ok == self.wf(),
    {
        self.left < self.right && self.bottom < self.top
    }
}

/// An axis-aligned rectangle, given by its centre and its width and height in
/// whole units. A negative width or height counts by its size.
#[derive(Clone, Copy, Debug, PartialEq, Eq, Structural)]
pub struct Rect {
    pub x: i32,
    pub y: i32,
    pub w: i32,
    pub h: i32,
}

/// The size of a length that may be written with either sign.
pub open spec fn magnitude(len: int) -> int {
    if len < 0 {
        -len
    } else {
        len
    }
}

impl Rect {
    /// The lowest x value, in halves.
    pub open spec fn spec_left(self) -> int {
        2 * self.x - magnitude(self.w as int)
    }

    /// The highest x value, in halves.
    pub open spec fn spec_right(self) -> int {
        2 * self.x + magnitude(self.w as int)
    }

    /// The lowest y value, in halves.
    pub open spec fn spec_bottom(self) -> int {
        2 * self.y - magnitude(self.h as int)
    }

    /// The highest y value, in halves.
    pub open spec fn spec_top(self) -> int {
        2 * self.y + magnitude(self.h as int)
    }

    /// The point lies in the rectangle; its four edges belong to it.
    pub open spec fn spec_contains(self, p: Point) -> bool {
        &&& self.spec_left() <= 2 * p.x <= self.spec_right()
        &&& self.spec_bottom() <= 2 * p.y <= self.spec_top()
    }

    /// Some area belongs to both rectangles. Two rectangles that only share
    /// an edge or a corner do not overlap.
    pub open spec fn overlaps(self, other: Rect) -> bool {
        &&& self.spec_left() < other.spec_right()
        &&& other.spec_left() < self.spec_right()
        &&& self.spec_bottom() < other.spec_top()
        &&& other.spec_bottom() < self.spec_top()
    }

    /// The rectangle centred at `(x, y)` that is `w` wide and `h` high.
    pub fn from_x_y_w_h(x: i32, y: i32, w: i32, h: i32) -> (rect: Rect)
        ensures
            rect == (Rect { x, y, w, h }),
    {
        Rect { x, y, w, h }
    }

    /// The lowest x value, in halves.
    pub fn left(&self) -> (edge: Halves)
        ensures
            edge == self.spec_left(),
    {
        2 * (self.x as i64) - size_of_length(self.w)
    }

    /// The highest x value, in halves.
    pub fn right(&self) -> (edge: Halves)
        ensures
            edge == self.spec_right(),
    {
        2 * (self.x as i64) + size_of_length(self.w)
    }

    /// The lowest y value, in halves.
    pub fn bottom(&self) -> (edge: Halves)
        ensures
            edge == self.spec_bottom(),
    {
        2 * (self.y as i64) - size_of_length(self.h)
    }

    /// The highest y value, in halves.
    pub fn top(&self) -> (edge: Halves)
        ensures
            edge == self.spec_top(),
    {
        2 * (self.y as i64) + size_of_length(self.h)
    }

    /// The top left corner.
    pub fn top_left(&self) -> (corner: HalfPoint)
        ensures
            corner.x == self.spec_left(),
            corner.y == self.spec_top(),
    {
        HalfPoint { x: self.left(), y: self.top() }
    }

    /// The top right corner.
    pub fn top_right(&self) -> (corner: HalfPoint)
        ensures
            corner.x == self.spec_right(),
            corner.y == self.spec_top(),
    {
        HalfPoint { x: self.right(), y: self.top() }
    }

    /// The bottom right corner.
    pub fn bottom_right(&self) -> (corner: HalfPoint)
        ensures
            corner.x == self.spec_right(),
            corner.y == self.spec_bottom(),
    {
        HalfPoint { x: self.right(), y: self.bottom() }
    }

    /// The bottom left corner.
    pub fn bottom_left(&self) -> (corner: HalfPoint)
        ensures
            corner.x == self.spec_left(),
            corner.y == self.spec_bottom(),
    {
        HalfPoint { x: self.left(), y: self.bottom() }
    }

    /// Whether the point lies in the rectangle, edges included.
    pub fn contains(&self, p: Point) -> (inside: bool)
        ensures
            inside == self.spec_contains(p),
    {
        let px: i64 = 2 * (p.x as i64);
        let py: i64 = 2 * (p.y as i64);
        self.left() <= px && px <= self.right() && self.bottom() <= py && py <= self.top()
    }
}

/// The size of a length, whatever its sign.
pub fn size_of_length(len: i32) -> (size: i64)
    ensures
        size == magnitude(len as int),
{
    let wide: i64 = len as i64;
    if wide < 0 {
        -wide
    } else {
        wide
    }
}

} // verus!
