//! The state of the sketch and what an input does to it.

use vstd::prelude::*;
use crate::capture::{generate_file_name, is_capture_name};
use crate::color::generate_random_color;
use crate::geometry::{Point, Viewport};
use crate::grid::{build_grid, grid_model, ZeroOffset};
use crate::square::{Policy, StyledRect};

verus! {

/// The state of the sketch: the grid, and when its squares take paint.
pub struct Model {
    pub grid: Vec<StyledRect>,
    pub policy: Policy,
}

/// What the event source reports.
pub enum Input {
    /// The capture key was pressed. `exe_name` is the name of the running
    /// program, which the file name starts with.
    CaptureKey { exe_name: String },
    /// Something else happened in the window. `pressed_at` is the pointer's
    /// position if its button is held, and `None` if it is not.
    Window { pressed_at: Option<Point> },
    /// Anything that does not concern the window.
    Other,
}

/// What the renderer is to do after an input.
#[derive(Debug, PartialEq, Eq)]
pub enum Action {
    /// Nothing beyond drawing the grid.
    Nothing,
    /// Write the current frame to the file `path`.
    CaptureFrame { path: String },
}

/// `after` is what `before` may become when the pointer is held at
/// `position`: a tile that wants paint has some colour of the sampled range
/// as fill and stroke, and any other tile is as before.
pub open spec fn follows_recolor(
    before: StyledRect,
    after: StyledRect,
    position: Point,
    policy: Policy,
) -> bool {
    if before.spec_wants_paint(position, policy) {
        after.fill_color.is_sampled() && after == before.painted(after.fill_color, policy)
    } else {
        after == before
    }
}

/// `after` is what the grid `before` may become when the pointer is held at
/// `position`: no tile comes or goes, and each follows `follows_recolor`.
pub open spec fn grid_follows_recolor(
    before: Seq<StyledRect>,
    after: Seq<StyledRect>,
    position: Point,
    policy: Policy,
) -> bool {
    &&& after.len() == before.len()
    &&& forall|i: int|
        0 <= i < before.len() ==> follows_recolor(before[i], #[trigger] after[i], position, policy)
}

/// The state at startup: the grid over `win` from squares of side
/// `square_size`, none of them painted.
pub fn model(win: &Viewport, square_size: i32, zero: ZeroOffset, policy: Policy) -> (model: Model)
    requires
        square_size > 0,
    ensures
        model.grid@ == grid_model(*win, square_size, zero),
        model.policy == policy,
{
    Model { grid: build_grid(win, square_size, zero), policy }
}

/// Gives every tile that lies under `position` and takes paint under
/// `policy` a random colour of its own, as fill and as stroke.
pub fn recolor(grid: &mut Vec<StyledRect>, position: Point, policy: Policy)
    ensures
        grid_follows_recolor(old(grid)@, final(grid)@, position, policy),
{
    let mut i: usize = 0;
    while i < grid.len()
        invariant
            i <= grid.len(),
            grid.len() == old(grid).len(),
            forall|k: int|
                0 <= k < i ==> follows_recolor(old(grid)[k], #[trigger] grid[k], position, policy),
            forall|k: int| i <= k < grid.len() ==> grid[k] == old(grid)[k],
        decreases grid.len() - i,
    {
        let mut tile = grid[i];
        if tile.wants_paint(position, policy) {
            let color = generate_random_color();
            tile.paint(color, policy);
            grid.set(i, tile);
        }
        i = i + 1;
    }
}

/// Handles one input.
///
/// The capture key asks for the frame to be written under a fresh file name
/// and leaves the grid alone. Any other input from the window recolors the
/// tiles under the pointer if its button is held. Everything else does
/// nothing.
pub fn event(model: &mut Model, input: Input) -> (action: Action)
    ensures
        final(model).policy == old(model).policy,
        match input {
            Input::CaptureKey { exe_name } => {
                &&& final(model).grid@ == old(model).grid@
                &&& action matches Action::CaptureFrame { path }
                &&& is_capture_name(exe_name@, path@)
            },
            Input::Window { pressed_at: Some(position) } => {
                &&& action == Action::Nothing
                &&& grid_follows_recolor(
                    old(model).grid@,
                    final(model).grid@,
                    position,
                    old(model).policy,
                )
            },
            _ => {
                &&& action == Action::Nothing
                &&& final(model).grid@ == old(model).grid@
            },
        },
{
    match input {
        Input::CaptureKey { exe_name } => Action::CaptureFrame {
            path: generate_file_name(exe_name.as_str()),
        },
        Input::Window { pressed_at: Some(position) } => {
            let policy = model.policy;
            recolor(&mut model.grid, position, policy);
            Action::Nothing
        },
        _ => Action::Nothing,
    }
}

/// Right after a recolor, every tile that took paint has one colour of the
/// sampled range as fill and as stroke, and stands where it stood.
pub proof fn lemma_recolor_fills_and_strokes(
    before: Seq<StyledRect>,
    after: Seq<StyledRect>,
    position: Point,
    policy: Policy,
    i: int,
)
    requires
        grid_follows_recolor(before, after, position, policy),
        0 <= i < before.len(),
        before[i].spec_wants_paint(position, policy),
    ensures
        after[i].fill_color == after[i].stroke_color,
        after[i].fill_color.is_sampled(),
        after[i].rect == before[i].rect,
        after[i].stroke_weight == before[i].stroke_weight,
{
    assert(follows_recolor(before[i], after[i], position, policy));
}

/// Under `PaintOnce` a tile that was recolored keeps its colour through
/// every later recolor, wherever the pointer is then.
pub proof fn lemma_recolor_once_is_final(
    before: Seq<StyledRect>,
    between: Seq<StyledRect>,
    after: Seq<StyledRect>,
    first: Point,
    second: Point,
    i: int,
)
    requires
        grid_follows_recolor(before, between, first, Policy::PaintOnce),
        grid_follows_recolor(between, after, second, Policy::PaintOnce),
        0 <= i < before.len(),
        before[i].rect.spec_contains(first),
    ensures
        after[i] == between[i],
{
    assert(follows_recolor(before[i], between[i], first, Policy::PaintOnce));
    assert(follows_recolor(between[i], after[i], second, Policy::PaintOnce));
}

/// Under `RepaintAlways` a tile under the pointer takes paint at every
/// recolor: after two of them its colour is the one drawn last, which need
/// not be the one drawn first.
pub proof fn lemma_recolor_always_takes_last(
    before: Seq<StyledRect>,
    between: Seq<StyledRect>,
    after: Seq<StyledRect>,
    position: Point,
    i: int,
)
    requires
        grid_follows_recolor(before, between, position, Policy::RepaintAlways),
        grid_follows_recolor(between, after, position, Policy::RepaintAlways),
        0 <= i < before.len(),
        before[i].rect.spec_contains(position),
    ensures
        between[i] == before[i].painted(between[i].fill_color, Policy::RepaintAlways),
        after[i] == before[i].painted(after[i].fill_color, Policy::RepaintAlways),
{
    assert(follows_recolor(before[i], between[i], position, Policy::RepaintAlways));
    assert(follows_recolor(between[i], after[i], position, Policy::RepaintAlways));
}

} // verus!
