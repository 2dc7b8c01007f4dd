//! The grid of squares that tiles a viewport outward from the origin.

use vstd::prelude::*;
use vstd::arithmetic::div_mod::lemma_fundamental_div_mod_converse;
use crate::geometry::{Rect, Viewport};
use crate::square::StyledRect;

verus! {

/// What becomes of the offset zero, which the walk away from the origin
/// reaches once in each direction.
#[derive(Clone, Copy, Debug, PartialEq, Eq, Structural)]
pub enum ZeroOffset {
    /// Zero stands once on an axis: no two squares share a centre.
    Once,
    /// Zero stands once for each direction that reaches it, so the row and
    /// the column through the origin may come twice.
    Twice,
}

/// How many of the offsets `0, e, 2e, ...` lie strictly below `bound`.
pub open spec fn steps_below(bound: int, e: int) -> nat {
    if bound <= 0 {
        0
    } else {
        ((bound - 1) / e + 1) as nat
    }
}

/// How many leading offsets the walk towards `lo` leaves out: the zero, where
/// it is wanted once and the walk towards `hi` has it already.
pub open spec fn skipped(lo: int, hi: int, zero: ZeroOffset) -> int {
    if zero == ZeroOffset::Once && lo < 0 && hi > 0 {
        1
    } else {
        0
    }
}

/// The offsets along one axis, in the order in which they are made: first
/// `0, e, 2e, ...` as long as they stay strictly below `hi`, then
/// `0, -e, -2e, ...` as long as they stay strictly above `lo`.
pub open spec fn axis_offsets(lo: int, hi: int, e: int, zero: ZeroOffset) -> Seq<int> {
    let up = steps_below(hi, e);
    let skip = skipped(lo, hi, zero);
    let down = (steps_below(-lo, e) - skip) as nat;
    Seq::new(up, |k: int| k * e) + Seq::new(down, |k: int| -((k + skip) * e))
}

/// The values of a sequence of machine integers.
pub open spec fn as_ints(s: Seq<i32>) -> Seq<int> {
    s.map_values(|v: i32| v as int)
}

/// The fresh square with the given centre and side.
pub open spec fn square_at(x: int, y: int, e: i32) -> StyledRect {
    StyledRect::spec_new(Rect { x: x as i32, y: y as i32, w: e, h: e })
}

/// The grid over `win` with squares of side `e`: one square for each pair of
/// an x offset and a y offset, all the squares of one x offset before those
/// of the next.
pub open spec fn grid_model(win: Viewport, e: i32, zero: ZeroOffset) -> Seq<StyledRect> {
    let xs = axis_offsets(win.left as int, win.right as int, e as int, zero);
    let ys = axis_offsets(win.bottom as int, win.top as int, e as int, zero);
    Seq::new(
        xs.len() * ys.len(),
        |i: int| square_at(xs[i / (ys.len() as int)], ys[i % (ys.len() as int)], e),
    )
}

/// `steps_below` counts what it says: the offset `k * e` lies below `bound`
/// exactly when `k` is one of the first `steps_below(bound, e)` numbers.
pub proof fn lemma_steps_below(bound: int, e: int, k: int)
    requires
        e > 0,
        k >= 0,
    ensures
        k < steps_below(bound, e) <==> k * e < bound,
{
    if bound <= 0 {
        assert(k * e >= 0) by (nonlinear_arith)
            requires
                k >= 0,
                e > 0,
        ;
    } else {
        let q = (bound - 1) / e;
        assert(q * e <= bound - 1 < q * e + e && q >= 0) by (nonlinear_arith)
            requires
                q == (bound - 1) / e,
                e > 0,
                bound - 1 >= 0,
        ;
        assert(k <= q <==> k * e <= bound - 1) by (nonlinear_arith)
            requires
                q * e <= bound - 1 < q * e + e,
                e > 0,
        ;
    }
}

/// The offsets along one axis between `lo` and `hi`, for squares of side
/// `edge_length`.
pub fn offsets_along(lo: i32, hi: i32, edge_length: i32, zero: ZeroOffset) -> (offsets: Vec<i32>)
    requires
        edge_length > 0,
    ensures
        as_ints(offsets@) == axis_offsets(lo as int, hi as int, edge_length as int, zero),
{
    let step: i64 = edge_length as i64;
    let mut offsets: Vec<i32> = Vec::new();
    let mut at: i64 = 0;
    assert(offsets.len() * step == 0) by (nonlinear_arith)
        requires
            offsets.len() == 0,
    ;
    while at < hi as i64
        invariant
            step == edge_length,
            step > 0,
            at == offsets.len() * step,
            offsets.len() > 0 ==> at - step < hi,
            forall|k: int| 0 <= k < offsets.len() ==> offsets[k] as int == k * step,
        decreases hi - at + step,
    {
        proof {
            let n = offsets.len() as int;
            assert((n + 1) * step == n * step + step) by (nonlinear_arith);
            assert(n * step >= 0) by (nonlinear_arith)
                requires
                    n >= 0,
                    step > 0,
            ;
        }
        offsets.push(at as i32);
        at = at + step;
    }
    let ghost up = offsets.len() as int;
    proof {
        lemma_steps_below(hi as int, step as int, up);
        if up > 0 {
            lemma_steps_below(hi as int, step as int, up - 1);
            assert((up - 1) * step == up * step - step) by (nonlinear_arith);
        }
        assert(up == steps_below(hi as int, step as int));
    }
    let skip: i64 = match zero {
        ZeroOffset::Once => if lo < 0 && hi > 0 {
            1
        } else {
            0
        },
        ZeroOffset::Twice => 0,
    };
    assert(skip == skipped(lo as int, hi as int, zero));
    at = if skip == 1 {
        -step
    } else {
        0
    };
    assert(at == -((offsets.len() - up + skip) * step)) by (nonlinear_arith)
        requires
            offsets.len() == up,
            at == -skip * step,
    ;
    while at > lo as i64
        invariant
            step == edge_length,
            step > 0,
            0 <= skip <= 1,
            0 <= up <= offsets.len(),
            at == -((offsets.len() - up + skip) * step),
            offsets.len() > up ==> at + step > lo,
            forall|k: int| 0 <= k < up ==> offsets[k] as int == k * step,
            forall|k: int|
                up <= k < offsets.len() ==> offsets[k] as int == -((k - up + skip) * step),
        decreases at - lo + step,
    {
        proof {
            let n = offsets.len() - up + skip;
            assert((n + 1) * step == n * step + step) by (nonlinear_arith);
            assert(n * step >= 0) by (nonlinear_arith)
                requires
                    n >= 0,
                    step > 0,
            ;
        }
        offsets.push(at as i32);
        at = at - step;
    }
    proof {
        let e = step as int;
        let m = offsets.len() - up;
        let down = steps_below(-(lo as int), e);
        lemma_steps_below(-(lo as int), e, m + skip);
        if m > 0 {
            lemma_steps_below(-(lo as int), e, m + skip - 1);
            assert((m + skip - 1) * e == (m + skip) * e - e) by (nonlinear_arith);
        } else {
            lemma_steps_below(-(lo as int), e, 0);
        }
        assert(m + skip == down);
        let model = axis_offsets(lo as int, hi as int, e, zero);
        assert(model.len() == offsets.len());
        assert forall|k: int| 0 <= k < offsets.len() implies as_ints(offsets@)[k] == model[k] by {
            if k >= up {
                assert(model[k] == -((k - up + skip) * e));
            }
        }
        assert(as_ints(offsets@) =~= model);
    }
    offsets
}

/// Builds the grid over `win` from squares of side `square_size`.
///
/// The squares are centred on the multiples of `square_size`, outward from
/// the origin in all four directions for as long as the centre stays strictly
/// inside the bound of that direction. All the squares of one x offset come
/// before those of the next.
pub fn build_grid(win: &Viewport, square_size: i32, zero: ZeroOffset) -> (grid: Vec<StyledRect>)
    requires
        square_size > 0,
    ensures
        grid@ == grid_model(*win, square_size, zero),
{
    let xs = offsets_along(win.left, win.right, square_size, zero);
    let ys = offsets_along(win.bottom, win.top, square_size, zero);
    let ghost xm = axis_offsets(win.left as int, win.right as int, square_size as int, zero);
    let ghost ym = axis_offsets(win.bottom as int, win.top as int, square_size as int, zero);
    let ghost rows = ys.len() as int;
    assert(xm.len() == xs.len() && ym.len() == ys.len()) by {
        assert(as_ints(xs@).len() == xs.len());
        assert(as_ints(ys@).len() == ys.len());
    }
    let mut grid: Vec<StyledRect> = Vec::new();
    let mut i: usize = 0;
    while i < xs.len()
        invariant
            i <= xs.len(),
            rows == ys.len(),
            as_ints(xs@) == xm,
            as_ints(ys@) == ym,
            grid.len() == i * rows,
            forall|n: int|
                0 <= n < grid.len() ==> grid[n] == square_at(
                    xm[n / rows],
                    ym[n % rows],
                    square_size,
                ),
        decreases xs.len() - i,
    {
        let mut j: usize = 0;
        while j < ys.len()
            invariant
                i < xs.len(),
                j <= ys.len(),
                rows == ys.len(),
                as_ints(xs@) == xm,
                as_ints(ys@) == ym,
                grid.len() == i * rows + j,
                forall|n: int|
                    0 <= n < grid.len() ==> grid[n] == square_at(
                        xm[n / rows],
                        ym[n % rows],
                        square_size,
                    ),
            decreases ys.len() - j,
        {
            proof {
                lemma_fundamental_div_mod_converse(i * rows + j, rows, i as int, j as int);
                assert(as_ints(xs@)[i as int] == xs[i as int]);
                assert(as_ints(ys@)[j as int] == ys[j as int]);
            }
            grid.push(StyledRect::new(Rect::from_x_y_w_h(xs[i], ys[j], square_size, square_size)));
            j = j + 1;
        }
        proof {
            assert((i + 1) * rows == i * rows + rows) by (nonlinear_arith);
        }
        i = i + 1;
    }
    proof {
        assert(grid@ =~= grid_model(*win, square_size, zero));
    }
    grid
}

} // verus!
