//! What the renderer is asked to draw for a grid.

use vstd::prelude::*;
use crate::color::Color;
use crate::geometry::HalfPoint;
use crate::square::StyledRect;

verus! {

/// One quadrilateral for the renderer: four corners in halves of a unit,
/// clockwise from the top left, the stroke and the fill.
#[derive(Clone, Copy, Debug, PartialEq, Eq, Structural)]
pub struct Quad {
    pub top_left: HalfPoint,
    pub top_right: HalfPoint,
    pub bottom_right: HalfPoint,
    pub bottom_left: HalfPoint,
    pub stroke_weight: u32,
    pub stroke_color: Color,
    pub color: Color,
}

/// The quadrilateral that shows a square.
pub open spec fn quad_of(square: StyledRect) -> Quad {
    let rect = square.rect;
    Quad {
        top_left: HalfPoint { x: rect.spec_left() as i64, y: rect.spec_top() as i64 },
        top_right: HalfPoint { x: rect.spec_right() as i64, y: rect.spec_top() as i64 },
        bottom_right: HalfPoint { x: rect.spec_right() as i64, y: rect.spec_bottom() as i64 },
        bottom_left: HalfPoint { x: rect.spec_left() as i64, y: rect.spec_bottom() as i64 },
        stroke_weight: square.stroke_weight,
        stroke_color: square.stroke_color,
        color: square.fill_color,
    }
}

/// The quadrilaterals that show the squares, one for each and in their order.
pub fn draw_squares(squares: &Vec<StyledRect>) -> (quads: Vec<Quad>)
    ensures
        quads@ == squares@.map_values(|square: StyledRect| quad_of(square)),
{
    let mut quads: Vec<Quad> = Vec::new();
    let mut i: usize = 0;
    while i < squares.len()
        invariant
            i <= squares.len(),
            quads.len() == i,
            forall|k: int| 0 <= k < i ==> quads[k] == quad_of(squares[k]),
        decreases squares.len() - i,
    {
        let square = squares[i];
        quads.push(
            Quad {
                top_left: square.rect.top_left(),
                top_right: square.rect.top_right(),
                bottom_right: square.rect.bottom_right(),
                bottom_left: square.rect.bottom_left(),
                stroke_weight: square.stroke_weight,
                stroke_color: square.stroke_color,
                color: square.fill_color,
            },
        );
        i = i + 1;
    }
    proof {
        assert(quads@ =~= squares@.map_values(|square: StyledRect| quad_of(square)));
    }
    quads
}

} // verus!
