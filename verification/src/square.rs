//! One tile of the grid: a rectangle and how it is drawn.

use vstd::prelude::*;
use crate::color::Color;
use crate::geometry::{Point, Rect};

verus! {

/// When a square under the pointer takes a new colour.
#[derive(Clone, Copy, Debug, PartialEq, Eq, Structural)]
pub enum Policy {
    /// A square is painted once: after that it keeps its colour.
    PaintOnce,
    /// A square is painted again each time, and its flag is left alone.
    RepaintAlways,
}

/// A rectangle with its fill, its stroke, and a flag that tells whether it
/// was painted already.
#[derive(Clone, Copy, Debug, PartialEq, Eq, Structural)]
pub struct StyledRect {
    pub rect: Rect,
    pub fill_color: Color,
    pub stroke_weight: u32,
    pub stroke_color: Color,
    pub styled: bool,
}

impl StyledRect {
    /// The rectangle as it looks before anything painted it: white, with a
    /// black stroke one unit wide.
    pub open spec fn spec_new(rect: Rect) -> StyledRect {
        StyledRect {
            rect,
            fill_color: Color::spec_white(),
            stroke_weight: 1,
            stroke_color: Color::spec_black(),
            styled: false,
        }
    }

    /// Under `policy`, the tile still takes paint.
    pub open spec fn accepts(self, policy: Policy) -> bool {
        policy == Policy::RepaintAlways || !self.styled
    }

    /// The tile lies under `position` and takes paint under `policy`.
    pub open spec fn spec_wants_paint(self, position: Point, policy: Policy) -> bool {
        self.rect.spec_contains(position) && self.accepts(policy)
    }

    /// The tile after it was offered `color` under `policy`: fill and stroke
    /// take the colour, unless the tile was painted once and for all before.
    /// Only `PaintOnce` raises the flag.
    pub open spec fn painted(self, color: Color, policy: Policy) -> StyledRect {
        match policy {
            Policy::PaintOnce => if self.styled {
                self
            } else {
                StyledRect { fill_color: color, stroke_color: color, styled: true, ..self }
            },
            Policy::RepaintAlways => StyledRect { fill_color: color, stroke_color: color, ..self },
        }
    }

    /// A fresh tile over `rect`.
    pub fn new(rect: Rect) -> (tile: StyledRect)
        ensures
            tile == StyledRect::spec_new(rect),
    {
        StyledRect {
            rect,
            fill_color: Color::white(),
            stroke_weight: 1,
            stroke_color: Color::black(),
            styled: false,
        }
    }

    /// Whether the tile lies under `position` and takes paint under `policy`.
    pub fn wants_paint(&self, position: Point, policy: Policy) -> (wanted: bool)
        ensures
            wanted == self.spec_wants_paint(position, policy),
    {
        let open = match policy {
            Policy::PaintOnce => !self.styled,
            Policy::RepaintAlways => true,
        };
        self.rect.contains(position) && open
    }

    /// Offers `color` to the tile under `policy`.
    pub fn paint(&mut self, color: Color, policy: Policy)
        ensures
            *final(self) == old(self).painted(color, policy),
    {
        match policy {
            Policy::PaintOnce => {
                if !self.styled {
                    self.stroke_color = color;
                    self.fill_color = color;
                    self.styled = true;
                }
            },
            Policy::RepaintAlways => {
                self.stroke_color = color;
                self.fill_color = color;
            },
        }
    }
}

/// Under `PaintOnce` the first paint stays: a second offer changes nothing.
pub proof fn lemma_paint_once_keeps_first(tile: StyledRect, first: Color, second: Color)
    ensures
        tile.painted(first, Policy::PaintOnce).painted(second, Policy::PaintOnce) == tile.painted(
            first,
            Policy::PaintOnce,
        ),
        !tile.styled ==> tile.painted(first, Policy::PaintOnce).fill_color == first,
{
}

/// Under `RepaintAlways` the last paint shows: after two offers the tile has
/// the second colour, so it changes colour whenever the two colours differ.
pub proof fn lemma_repaint_shows_last(tile: StyledRect, first: Color, second: Color)
    ensures
        tile.painted(first, Policy::RepaintAlways).painted(second, Policy::RepaintAlways)
            == tile.painted(second, Policy::RepaintAlways),
        tile.painted(second, Policy::RepaintAlways).fill_color == second,
        first != second ==> tile.painted(first, Policy::RepaintAlways).painted(
            second,
            Policy::RepaintAlways,
        ).fill_color != tile.painted(first, Policy::RepaintAlways).fill_color,
{
}

/// Whatever the policy, a tile's fill and stroke are the same colour right
/// after paint took, and paint never moves or resizes a tile.
pub proof fn lemma_paint_fills_and_strokes(tile: StyledRect, color: Color, policy: Policy)
    ensures
        tile.accepts(policy) ==> tile.painted(color, policy).fill_color == color
            && tile.painted(color, policy).stroke_color == color,
        !tile.accepts(policy) ==> tile.painted(color, policy) == tile,
        tile.painted(color, policy).rect == tile.rect,
        tile.painted(color, policy).stroke_weight == tile.stroke_weight,
{
}

} // verus!
