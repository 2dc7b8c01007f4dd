//! What holds of every grid: where its squares lie, that they do not overlap,
//! and how much of the viewport they cover.

use vstd::prelude::*;
use vstd::arithmetic::div_mod::{lemma_fundamental_div_mod, lemma_fundamental_div_mod_converse};
use crate::geometry::{Point, Rect, Viewport};
use crate::grid::{axis_offsets, grid_model, lemma_steps_below, skipped, steps_below, ZeroOffset};

verus! {

/// The multiple of the side at which the offset number `i` of an axis lies.
pub open spec fn multiplier(lo: int, hi: int, e: int, zero: ZeroOffset, i: int) -> int {
    let up = steps_below(hi, e) as int;
    if i < up {
        i
    } else {
        -(i - up + skipped(lo, hi, zero))
    }
}

/// The least offset of an axis whose bounds are `lo < hi`.
pub open spec fn lowest_offset(lo: int, e: int) -> int {
    if lo < 0 {
        -((steps_below(-lo, e) - 1) * e)
    } else {
        0
    }
}

/// The greatest offset of an axis whose bounds are `lo < hi`.
pub open spec fn highest_offset(hi: int, e: int) -> int {
    if hi > 0 {
        (steps_below(hi, e) - 1) * e
    } else {
        0
    }
}

/// The point lies in the area that the squares of the grid span: between the
/// outer edges of the outermost squares in each direction.
pub open spec fn in_tiled_area(win: Viewport, e: i32, p: Point) -> bool {
    &&& 2 * lowest_offset(win.left as int, e as int) - e <= 2 * p.x
    &&& 2 * p.x <= 2 * highest_offset(win.right as int, e as int) + e
    &&& 2 * lowest_offset(win.bottom as int, e as int) - e <= 2 * p.y
    &&& 2 * p.y <= 2 * highest_offset(win.top as int, e as int) + e
}

/// The outermost squares reach each of the four bounds of the viewport, or go
/// beyond it.
pub open spec fn reaches_bounds(win: Viewport, e: i32) -> bool {
    &&& 2 * lowest_offset(win.left as int, e as int) - e <= 2 * win.left
    &&& 2 * win.right <= 2 * highest_offset(win.right as int, e as int) + e
    &&& 2 * lowest_offset(win.bottom as int, e as int) - e <= 2 * win.bottom
    &&& 2 * win.top <= 2 * highest_offset(win.top as int, e as int) + e
}

/// The rectangle goes beyond no bound of the viewport by more than half of
/// `e`.
pub open spec fn within_half_edge(rect: Rect, win: Viewport, e: i32) -> bool {
    &&& 2 * win.left - e <= rect.spec_left()
    &&& rect.spec_right() <= 2 * win.right + e
    &&& 2 * win.bottom - e <= rect.spec_bottom()
    &&& rect.spec_top() <= 2 * win.top + e
}

/// Each offset of an axis is a whole multiple of the side. Those of the walk
/// upward lie in `[0, hi)`, those of the walk downward in `(lo, 0]`.
pub proof fn lemma_offset_is_multiple(lo: int, hi: int, e: int, zero: ZeroOffset, i: int)
    requires
        e > 0,
        0 <= i < axis_offsets(lo, hi, e, zero).len(),
    ensures
        axis_offsets(lo, hi, e, zero)[i] == multiplier(lo, hi, e, zero, i) * e,
        i < steps_below(hi, e) ==> 0 <= axis_offsets(lo, hi, e, zero)[i] < hi,
        i >= steps_below(hi, e) ==> lo < axis_offsets(lo, hi, e, zero)[i] <= 0,
{
    let up = steps_below(hi, e) as int;
    let skip = skipped(lo, hi, zero);
    if i < up {
        lemma_steps_below(hi, e, i);
        assert(i * e >= 0) by (nonlinear_arith)
            requires
                i >= 0,
                e > 0,
        ;
    } else {
        let k = i - up + skip;
        lemma_steps_below(-lo, e, k);
        assert(axis_offsets(lo, hi, e, zero)[i] == -(k * e));
        assert((-k) * e == -(k * e) && k * e >= 0) by (nonlinear_arith)
            requires
                k >= 0,
                e > 0,
        ;
    }
}

/// Every multiple of the side between the outermost offsets is an offset of
/// the axis.
pub proof fn lemma_multiple_is_offset(lo: int, hi: int, e: int, zero: ZeroOffset, k: int) -> (i: int)
    requires
        e > 0,
        (0 <= k < steps_below(hi, e)) || (k <= 0 && -k < steps_below(-lo, e)),
    ensures
        0 <= i < axis_offsets(lo, hi, e, zero).len(),
        axis_offsets(lo, hi, e, zero)[i] == k * e,
{
    let up = steps_below(hi, e) as int;
    let skip = skipped(lo, hi, zero);
    if 0 <= k < up {
        k
    } else {
        lemma_steps_below(hi, e, 0);
        let i = up - k - skip;
        assert(axis_offsets(lo, hi, e, zero)[i] == -((-k) * e));
        assert(-((-k) * e) == k * e) by (nonlinear_arith);
        i
    }
}

/// Two offsets of one axis are equal or at least one side apart.
pub proof fn lemma_offsets_apart(lo: int, hi: int, e: int, zero: ZeroOffset, i: int, j: int)
    requires
        e > 0,
        0 <= i < axis_offsets(lo, hi, e, zero).len(),
        0 <= j < axis_offsets(lo, hi, e, zero).len(),
    ensures
        ({
            let a = axis_offsets(lo, hi, e, zero)[i];
            let b = axis_offsets(lo, hi, e, zero)[j];
            a == b || a - b >= e || b - a >= e
        }),
{
    lemma_offset_is_multiple(lo, hi, e, zero, i);
    lemma_offset_is_multiple(lo, hi, e, zero, j);
    let ka = multiplier(lo, hi, e, zero, i);
    let kb = multiplier(lo, hi, e, zero, j);
    assert(ka == kb || ka * e - kb * e >= e || kb * e - ka * e >= e) by (nonlinear_arith)
        requires
            e > 0,
    ;
}

/// A coordinate between the outer edges of the outermost squares of an axis
/// lies within half a side of some offset of that axis.
pub proof fn lemma_axis_covered(lo: int, hi: int, e: int, zero: ZeroOffset, p: int) -> (i: int)
    requires
        e > 0,
        lo < hi,
        2 * lowest_offset(lo, e) - e <= 2 * p <= 2 * highest_offset(hi, e) + e,
    ensures
        0 <= i < axis_offsets(lo, hi, e, zero).len(),
        2 * axis_offsets(lo, hi, e, zero)[i] - e <= 2 * p <= 2 * axis_offsets(lo, hi, e, zero)[i] + e,
{
    let up = steps_below(hi, e) as int;
    let down = steps_below(-lo, e) as int;
    lemma_steps_below(hi, e, 0);
    lemma_steps_below(-lo, e, 0);
    let kmin = if lo < 0 {
        -(down - 1)
    } else {
        0
    };
    let kmax = if hi > 0 {
        up - 1
    } else {
        0
    };
    assert(lowest_offset(lo, e) == kmin * e && highest_offset(hi, e) == kmax * e)
        by (nonlinear_arith)
        requires
            lowest_offset(lo, e) == if lo < 0 {
                -((down - 1) * e)
            } else {
                0
            },
            highest_offset(hi, e) == if hi > 0 {
                (up - 1) * e
            } else {
                0
            },
            kmin == if lo < 0 {
                -(down - 1)
            } else {
                0
            },
            kmax == if hi > 0 {
                up - 1
            } else {
                0
            },
    ;
    let q = (2 * p + e) / (2 * e);
    assert(2 * e * q <= 2 * p + e < 2 * e * q + 2 * e) by (nonlinear_arith)
        requires
            q == (2 * p + e) / (2 * e),
            e > 0,
    ;
    let k = if q <= kmax {
        q
    } else {
        kmax
    };
    assert(kmin <= 0 <= kmax);
    assert(kmin <= q) by (nonlinear_arith)
        requires
            e > 0,
            2 * p + e < 2 * e * q + 2 * e,
            2 * (kmin * e) - e <= 2 * p,
    ;
    if q > kmax {
        assert(2 * (kmax * e) - e <= 2 * p) by (nonlinear_arith)
            requires
                e > 0,
                q >= kmax + 1,
                2 * e * q <= 2 * p + e,
        ;
    } else {
        assert(2 * (q * e) - e <= 2 * p <= 2 * (q * e) + e) by (nonlinear_arith)
            requires
                2 * e * q <= 2 * p + e < 2 * e * q + 2 * e,
        ;
    }
    lemma_multiple_is_offset(lo, hi, e, zero, k)
}

/// On an axis whose bounds have zero between them, every offset lies between
/// the bounds.
pub proof fn lemma_axis_within(lo: int, hi: int, e: int, zero: ZeroOffset, i: int)
    requires
        e > 0,
        lo <= 0 <= hi,
        0 <= i < axis_offsets(lo, hi, e, zero).len(),
    ensures
        lo <= axis_offsets(lo, hi, e, zero)[i] <= hi,
{
    lemma_offset_is_multiple(lo, hi, e, zero, i);
}

/// On an axis whose bounds have zero between them, some offset lies less
/// than one side above the lower bound.
pub proof fn lemma_axis_reaches_low(lo: int, hi: int, e: int, zero: ZeroOffset) -> (i: int)
    requires
        e > 0,
        lo < hi,
        lo <= 0 <= hi,
    ensures
        0 <= i < axis_offsets(lo, hi, e, zero).len(),
        axis_offsets(lo, hi, e, zero)[i] <= lo + e,
{
    let down = steps_below(-lo, e) as int;
    lemma_steps_below(-lo, e, 0);
    lemma_steps_below(hi, e, 0);
    if lo < 0 {
        lemma_steps_below(-lo, e, down);
        assert((-(down - 1)) * e == e - down * e) by (nonlinear_arith);
        lemma_multiple_is_offset(lo, hi, e, zero, -(down - 1))
    } else {
        lemma_multiple_is_offset(lo, hi, e, zero, 0)
    }
}

/// On an axis whose bounds have zero between them, some offset lies less
/// than one side below the upper bound.
pub proof fn lemma_axis_reaches_high(lo: int, hi: int, e: int, zero: ZeroOffset) -> (i: int)
    requires
        e > 0,
        lo < hi,
        lo <= 0 <= hi,
    ensures
        0 <= i < axis_offsets(lo, hi, e, zero).len(),
        axis_offsets(lo, hi, e, zero)[i] >= hi - e,
{
    let up = steps_below(hi, e) as int;
    lemma_steps_below(-lo, e, 0);
    lemma_steps_below(hi, e, 0);
    if hi > 0 {
        lemma_steps_below(hi, e, up);
        assert((up - 1) * e == up * e - e) by (nonlinear_arith);
        lemma_multiple_is_offset(lo, hi, e, zero, up - 1)
    } else {
        lemma_multiple_is_offset(lo, hi, e, zero, 0)
    }
}

/// Where the square number `i` of a grid stands: its centre is the pair of
/// the x offset number `i / rows` and the y offset number `i % rows`, where
/// `rows` is the number of y offsets, and its sides are `e`.
pub proof fn lemma_grid_square(win: Viewport, e: i32, zero: ZeroOffset, i: int)
    requires
        e > 0,
        0 <= i < grid_model(win, e, zero).len(),
    ensures
        ({
            let xs = axis_offsets(win.left as int, win.right as int, e as int, zero);
            let ys = axis_offsets(win.bottom as int, win.top as int, e as int, zero);
            let rows = ys.len() as int;
            let rect = grid_model(win, e, zero)[i].rect;
            &&& rows > 0
            &&& 0 <= i / rows < xs.len()
            &&& 0 <= i % rows < rows
            &&& rect.x == xs[i / rows]
            &&& rect.y == ys[i % rows]
            &&& rect.w == e
            &&& rect.h == e
        }),
{
    let xs = axis_offsets(win.left as int, win.right as int, e as int, zero);
    let ys = axis_offsets(win.bottom as int, win.top as int, e as int, zero);
    let cols = xs.len() as int;
    let rows = ys.len() as int;
    assert(rows > 0 && 0 <= i / rows < cols && 0 <= i % rows < rows) by (nonlinear_arith)
        requires
            0 <= i < cols * rows,
            0 <= rows,
            0 <= cols,
    ;
    lemma_offset_is_multiple(win.left as int, win.right as int, e as int, zero, i / rows);
    lemma_offset_is_multiple(win.bottom as int, win.top as int, e as int, zero, i % rows);
}

/// The square of a grid that stands at the x offset number `ix` and the y
/// offset number `iy`.
pub proof fn lemma_grid_index(win: Viewport, e: i32, zero: ZeroOffset, ix: int, iy: int) -> (i: int)
    requires
        e > 0,
        0 <= ix < axis_offsets(win.left as int, win.right as int, e as int, zero).len(),
        0 <= iy < axis_offsets(win.bottom as int, win.top as int, e as int, zero).len(),
    ensures
        0 <= i < grid_model(win, e, zero).len(),
        grid_model(win, e, zero)[i].rect.x == axis_offsets(
            win.left as int,
            win.right as int,
            e as int,
            zero,
        )[ix],
        grid_model(win, e, zero)[i].rect.y == axis_offsets(
            win.bottom as int,
            win.top as int,
            e as int,
            zero,
        )[iy],
        grid_model(win, e, zero)[i].rect.w == e,
        grid_model(win, e, zero)[i].rect.h == e,
{
    let xs = axis_offsets(win.left as int, win.right as int, e as int, zero);
    let ys = axis_offsets(win.bottom as int, win.top as int, e as int, zero);
    let cols = xs.len() as int;
    let rows = ys.len() as int;
    let i = ix * rows + iy;
    assert(0 <= i < cols * rows) by (nonlinear_arith)
        requires
            i == ix * rows + iy,
            0 <= ix < cols,
            0 <= iy < rows,
    ;
    lemma_fundamental_div_mod_converse(i, rows, ix, iy);
    lemma_grid_square(win, e, zero, i);
    i
}

/// The squares of a grid keep to the viewport, and leave no wide gap at its
/// bounds.
///
/// Over a viewport that holds the origin, no square goes beyond a bound by
/// more than half a side, and at each of the four bounds some square has its
/// outer edge within half a side of the bound.
pub proof fn lemma_squares_hug_viewport(win: Viewport, e: i32, zero: ZeroOffset)
    requires
        e > 0,
        win.wf(),
        win.holds_origin(),
    ensures
        forall|i: int|
            0 <= i < grid_model(win, e, zero).len() ==> within_half_edge(
                #[trigger] grid_model(win, e, zero)[i].rect,
                win,
                e,
            ),
        exists|i: int|
            0 <= i < grid_model(win, e, zero).len() && (#[trigger] grid_model(
                win,
                e,
                zero,
            )[i]).rect.spec_left() <= 2 * win.left + e,
        exists|i: int|
            0 <= i < grid_model(win, e, zero).len() && (#[trigger] grid_model(
                win,
                e,
                zero,
            )[i]).rect.spec_right() >= 2 * win.right - e,
        exists|i: int|
            0 <= i < grid_model(win, e, zero).len() && (#[trigger] grid_model(
                win,
                e,
                zero,
            )[i]).rect.spec_bottom() <= 2 * win.bottom + e,
        exists|i: int|
            0 <= i < grid_model(win, e, zero).len() && (#[trigger] grid_model(
                win,
                e,
                zero,
            )[i]).rect.spec_top() >= 2 * win.top - e,
{
    let g = grid_model(win, e, zero);
    let (l, r, b, t) = (win.left as int, win.right as int, win.bottom as int, win.top as int);
    assert forall|i: int| 0 <= i < g.len() implies within_half_edge(#[trigger] g[i].rect, win, e) by {
        lemma_grid_square(win, e, zero, i);
        let rows = axis_offsets(b, t, e as int, zero).len() as int;
        lemma_axis_within(l, r, e as int, zero, i / rows);
        lemma_axis_within(b, t, e as int, zero, i % rows);
    }
    let x_low = lemma_axis_reaches_low(l, r, e as int, zero);
    let x_high = lemma_axis_reaches_high(l, r, e as int, zero);
    let y_low = lemma_axis_reaches_low(b, t, e as int, zero);
    let y_high = lemma_axis_reaches_high(b, t, e as int, zero);
    let at_left = lemma_grid_index(win, e, zero, x_low, y_low);
    let at_right = lemma_grid_index(win, e, zero, x_high, y_low);
    let at_top = lemma_grid_index(win, e, zero, x_low, y_high);
    assert(g[at_left].rect.spec_left() <= 2 * win.left + e);
    assert(g[at_right].rect.spec_right() >= 2 * win.right - e);
    assert(g[at_left].rect.spec_bottom() <= 2 * win.bottom + e);
    assert(g[at_top].rect.spec_top() >= 2 * win.top - e);
}

/// Two squares of a grid with different centres do not overlap: they share
/// at most an edge or a corner.
pub proof fn lemma_distinct_squares_do_not_overlap(
    win: Viewport,
    e: i32,
    zero: ZeroOffset,
    i: int,
    j: int,
)
    requires
        e > 0,
        0 <= i < grid_model(win, e, zero).len(),
        0 <= j < grid_model(win, e, zero).len(),
        grid_model(win, e, zero)[i].rect.x != grid_model(win, e, zero)[j].rect.x || grid_model(
            win,
            e,
            zero,
        )[i].rect.y != grid_model(win, e, zero)[j].rect.y,
    ensures
        !grid_model(win, e, zero)[i].rect.overlaps(grid_model(win, e, zero)[j].rect),
{
    let (l, r, b, t) = (win.left as int, win.right as int, win.bottom as int, win.top as int);
    let rows = axis_offsets(b, t, e as int, zero).len() as int;
    lemma_grid_square(win, e, zero, i);
    lemma_grid_square(win, e, zero, j);
    lemma_offsets_apart(l, r, e as int, zero, i / rows, j / rows);
    lemma_offsets_apart(b, t, e as int, zero, i % rows, j % rows);
}

/// With `ZeroOffset::Once`, two different squares of a grid have different
/// centres.
pub proof fn lemma_centres_are_distinct(win: Viewport, e: i32, i: int, j: int)
    requires
        e > 0,
        0 <= i < grid_model(win, e, ZeroOffset::Once).len(),
        0 <= j < grid_model(win, e, ZeroOffset::Once).len(),
        i != j,
    ensures
        grid_model(win, e, ZeroOffset::Once)[i].rect.x != grid_model(
            win,
            e,
            ZeroOffset::Once,
        )[j].rect.x || grid_model(win, e, ZeroOffset::Once)[i].rect.y != grid_model(
            win,
            e,
            ZeroOffset::Once,
        )[j].rect.y,
{
    let zero = ZeroOffset::Once;
    let (l, r, b, t) = (win.left as int, win.right as int, win.bottom as int, win.top as int);
    let rows = axis_offsets(b, t, e as int, zero).len() as int;
    lemma_grid_square(win, e, zero, i);
    lemma_grid_square(win, e, zero, j);
    lemma_offsets_differ(l, r, e as int, i / rows, j / rows);
    lemma_offsets_differ(b, t, e as int, i % rows, j % rows);
    lemma_fundamental_div_mod(i, rows);
    lemma_fundamental_div_mod(j, rows);
}

/// With `ZeroOffset::Once`, no offset comes twice on an axis.
pub proof fn lemma_offsets_differ(lo: int, hi: int, e: int, i: int, j: int)
    requires
        e > 0,
        0 <= i < axis_offsets(lo, hi, e, ZeroOffset::Once).len(),
        0 <= j < axis_offsets(lo, hi, e, ZeroOffset::Once).len(),
    ensures
        i != j ==> axis_offsets(lo, hi, e, ZeroOffset::Once)[i] != axis_offsets(
            lo,
            hi,
            e,
            ZeroOffset::Once,
        )[j],
{
    let zero = ZeroOffset::Once;
    lemma_offset_is_multiple(lo, hi, e, zero, i);
    lemma_offset_is_multiple(lo, hi, e, zero, j);
    lemma_steps_below(hi, e, 0);
    let ka = multiplier(lo, hi, e, zero, i);
    let kb = multiplier(lo, hi, e, zero, j);
    if i != j {
        assert(ka != kb);
        assert(ka * e != kb * e) by (nonlinear_arith)
            requires
                ka != kb,
                e > 0,
        ;
    }
}

/// The squares of a grid leave no gap between them: every point of the area
/// that they span lies in one of them.
pub proof fn lemma_grid_covers_tiled_area(win: Viewport, e: i32, zero: ZeroOffset, p: Point) -> (i:
    int)
    requires
        e > 0,
        win.wf(),
        in_tiled_area(win, e, p),
    ensures
        0 <= i < grid_model(win, e, zero).len(),
        grid_model(win, e, zero)[i].rect.spec_contains(p),
{
    let (l, r, b, t) = (win.left as int, win.right as int, win.bottom as int, win.top as int);
    let ix = lemma_axis_covered(l, r, e as int, zero, p.x as int);
    let iy = lemma_axis_covered(b, t, e as int, zero, p.y as int);
    lemma_grid_index(win, e, zero, ix, iy)
}

/// Where the outermost squares reach the four bounds, the squares of a grid
/// cover the viewport: every point of it lies in one of them.
pub proof fn lemma_grid_covers_viewport(win: Viewport, e: i32, zero: ZeroOffset, p: Point) -> (i:
    int)
    requires
        e > 0,
        win.wf(),
        reaches_bounds(win, e),
        win.holds(p),
    ensures
        0 <= i < grid_model(win, e, zero).len(),
        grid_model(win, e, zero)[i].rect.spec_contains(p),
{
    lemma_grid_covers_tiled_area(win, e, zero, p)
}

/// Every offset of an axis lies between the least and the greatest one.
pub proof fn lemma_axis_bounded(lo: int, hi: int, e: int, zero: ZeroOffset, i: int)
    requires
        e > 0,
        0 <= i < axis_offsets(lo, hi, e, zero).len(),
    ensures
        lowest_offset(lo, e) <= axis_offsets(lo, hi, e, zero)[i] <= highest_offset(hi, e),
{
    let up = steps_below(hi, e) as int;
    let down = steps_below(-lo, e) as int;
    let k = multiplier(lo, hi, e, zero, i);
    lemma_offset_is_multiple(lo, hi, e, zero, i);
    lemma_steps_below(hi, e, 0);
    lemma_steps_below(-lo, e, 0);
    assert(hi > 0 ==> (up - 1) * e >= 0 && (k <= up - 1 ==> k * e <= (up - 1) * e))
        by (nonlinear_arith)
        requires
            e > 0,
            hi > 0 ==> up >= 1,
    ;
    assert(lo < 0 ==> (down - 1) * e >= 0 && (-k <= down - 1 ==> k * e >= -((down - 1) * e)))
        by (nonlinear_arith)
        requires
            e > 0,
            lo < 0 ==> down >= 1,
    ;
}

/// Where the outermost squares stop short of a bound, the grid leaves a
/// point of the viewport bare: a grid covers its viewport only if it reaches
/// the four bounds.
pub proof fn lemma_gap_where_bounds_not_reached(win: Viewport, e: i32, zero: ZeroOffset) -> (p:
    Point)
    requires
        e > 0,
        win.wf(),
        !reaches_bounds(win, e),
    ensures
        win.holds(p),
        forall|i: int|
            0 <= i < grid_model(win, e, zero).len() ==> !(#[trigger] grid_model(
                win,
                e,
                zero,
            )[i]).rect.spec_contains(p),
{
    let g = grid_model(win, e, zero);
    let (l, r, b, t) = (win.left as int, win.right as int, win.bottom as int, win.top as int);
    let rows = axis_offsets(b, t, e as int, zero).len() as int;
    let x = if 2 * lowest_offset(l, e as int) - e > 2 * win.left {
        win.left
    } else {
        win.right
    };
    let y = if 2 * lowest_offset(b, e as int) - e > 2 * win.bottom {
        win.bottom
    } else {
        win.top
    };
    let p = Point { x, y };
    assert forall|i: int| 0 <= i < g.len() implies !(#[trigger] g[i]).rect.spec_contains(p) by {
        lemma_grid_square(win, e, zero, i);
        lemma_axis_bounded(l, r, e as int, zero, i / rows);
        lemma_axis_bounded(b, t, e as int, zero, i % rows);
    }
    p
}

} // verus!
