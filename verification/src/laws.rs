//! Laws of the layout engine, proved over its spec model.

use vstd::prelude::*;
use crate::cell::{Cell, PxSize};
use crate::px::Px;
use crate::table::{
    col_count, lemma_cell_index, pass1_at, pass1_done, pass2_at, row_count, spec_cell_boxes,
    spec_column_widths, spec_content_available, spec_grid_size, spec_height_unit,
    spec_row_heights, spec_share, sum_px, Table,
};

verus! {

/// Laying out twice with identical inputs and no intervening mutation
/// yields bit-identical metrics, boxes and size: the layout result is a
/// pure function of the table and the bounds, with no state carried between
/// calls. Together with `layout`'s own contract, which pins its result to
/// these four spec functions, two equal calls return equal results.
pub proof fn lemma_layout_pure<C: Cell>(t1: Table<C>, bounds1: PxSize, t2: Table<C>, bounds2: PxSize)
    requires
        t1 == t2,
        bounds1 == bounds2,
    ensures
        spec_column_widths(t1, bounds1) == spec_column_widths(t2, bounds2),
        spec_row_heights(t1, bounds1) == spec_row_heights(t2, bounds2),
        spec_cell_boxes(t1, bounds1) == spec_cell_boxes(t2, bounds2),
        spec_grid_size(t1, bounds1) == spec_grid_size(t2, bounds2),
{
}

/// Every component of the first pass's state is well formed throughout.
pub proof fn lemma_pass1_wf<C: Cell>(t: Table<C>, bounds: PxSize, i: int)
    requires
        t.wf(),
        bounds.wf(),
        0 <= i <= t.cells@.len(),
    ensures
        pass1_at(t, bounds, i).col_widths.len() == col_count(t),
        pass1_at(t, bounds, i).row_heights.len() == row_count(t),
        forall|j: int|
            0 <= j < col_count(t) ==> (#[trigger] pass1_at(t, bounds, i).col_widths[j]).wf(),
        forall|j: int|
            0 <= j < row_count(t) ==> (#[trigger] pass1_at(t, bounds, i).row_heights[j]).wf(),
        pass1_at(t, bounds, i).x.wf(),
        pass1_at(t, bounds, i).y.wf(),
        pass1_at(t, bounds, i).total_fluid.wf(),
    decreases i,
{
    if i > 0 {
        lemma_pass1_wf(t, bounds, i - 1);
        lemma_cell_index(i - 1, col_count(t), t.cells@.len() as int);
    }
}

/// The evenly distributed share of leftover width is never negative.
pub proof fn lemma_share_nonneg<C: Cell>(t: Table<C>, bounds: PxSize)
    requires
        t.wf(),
        bounds.wf(),
    ensures
        spec_share(t, bounds).v >= 0,
        spec_share(t, bounds).wf(),
{
    if col_count(t) != 0 {
        let remaining = Px::spec_max0(
            Px::spec_sub(
                spec_content_available(t, bounds),
                sum_px(pass1_done(t, bounds).col_widths),
            ),
        );
        Px::lemma_div_trunc_bounds(remaining.v as int, col_count(t) as int);
    }
}

/// No column's final width is ever less than its intrinsic width: every
/// column receives its intrinsic width plus the same non-negative share.
pub proof fn lemma_no_column_below_intrinsic<C: Cell>(t: Table<C>, bounds: PxSize, j: int)
    requires
        t.wf(),
        bounds.wf(),
        0 <= j < col_count(t),
    ensures
        spec_column_widths(t, bounds)[j].v >= pass1_done(t, bounds).col_widths[j].v,
{
    lemma_pass1_wf(t, bounds, t.cells@.len() as int);
    lemma_share_nonneg(t, bounds);
}

/// Summing preserves a pointwise bound between two sequences of lengths.
pub proof fn lemma_sum_px_pointwise_ge(a: Seq<Px>, b: Seq<Px>)
    requires
        a.len() == b.len(),
        forall|j: int| 0 <= j < a.len() ==> (#[trigger] a[j]).v >= b[j].v,
        forall|j: int| 0 <= j < a.len() ==> (#[trigger] a[j]).wf(),
        forall|j: int| 0 <= j < b.len() ==> (#[trigger] b[j]).wf(),
    ensures
        sum_px(a).v >= sum_px(b).v,
        sum_px(a).wf(),
        sum_px(b).wf(),
    decreases a.len(),
{
    if a.len() > 0 {
        lemma_sum_px_pointwise_ge(a.drop_last(), b.drop_last());
    }
}

/// The sum of the final column widths is never below the sum of the
/// intrinsic column widths: columns never shrink below their content.
pub proof fn lemma_total_width_at_least_intrinsic<C: Cell>(t: Table<C>, bounds: PxSize)
    requires
        t.wf(),
        bounds.wf(),
    ensures
        sum_px(spec_column_widths(t, bounds)).v >= sum_px(pass1_done(t, bounds).col_widths).v,
{
    lemma_pass1_wf(t, bounds, t.cells@.len() as int);
    lemma_share_nonneg(t, bounds);
    let a = spec_column_widths(t, bounds);
    let b = pass1_done(t, bounds).col_widths;
    assert forall|j: int| 0 <= j < a.len() implies (#[trigger] a[j]).v >= b[j].v by {
        lemma_no_column_below_intrinsic(t, bounds, j);
    }
    assert forall|j: int| 0 <= j < a.len() implies (#[trigger] a[j]).wf() by {
        lemma_no_column_below_intrinsic(t, bounds, j);
    }
    lemma_sum_px_pointwise_ge(a, b);
}

/// The largest fill factor among the first `k` cells of row `r`.
pub open spec fn row_max_factor_upto<C: Cell>(t: Table<C>, r: int, k: int) -> u16
    decreases k,
{
    if k <= 0 {
        0
    } else {
        let f = t.cells@[r * col_count(t) + (k - 1)].spec_height_policy().spec_fill_factor();
        let prev = row_max_factor_upto(t, r, k - 1);
        if prev >= f {
            prev
        } else {
            f
        }
    }
}

/// The largest fill factor declared in row `r`.
pub open spec fn spec_row_max_factor<C: Cell>(t: Table<C>, r: int) -> u16 {
    row_max_factor_upto(t, r, col_count(t))
}

/// Whether every cell of row `r` declares a fill height.
pub open spec fn spec_all_fill_row<C: Cell>(t: Table<C>, r: int) -> bool {
    forall|j: int|
        0 <= j < col_count(t) ==> (#[trigger] t.cells@[r * col_count(t) + j]).spec_height_policy() is Fill
}

/// Whether every cell of row `r` fills any non-negative height bound it is
/// measured under, whatever the width bound.
pub open spec fn spec_row_fills_bounds<C: Cell>(t: Table<C>, r: int) -> bool {
    forall|j: int, wb: Px, hb: Px|
        0 <= j < col_count(t) && hb.v >= 0 ==> (#[trigger] t.cells@[r * col_count(t)
            + j].spec_measure(wb, hb)).height == hb
}

/// Through the first pass, the intrinsic height of a row whose cells all
/// declare fill heights stays zero: fill cells never feed the intrinsic max.
proof fn lemma_pass1_fluid_row_zero<C: Cell>(t: Table<C>, bounds: PxSize, r: int, i: int)
    requires
        t.wf(),
        bounds.wf(),
        0 <= r < row_count(t),
        spec_all_fill_row(t, r),
        0 <= i <= t.cells@.len(),
    ensures
        pass1_at(t, bounds, i).row_heights[r] == (Px { v: 0 }),
    decreases i,
{
    if i == 0 {
    } else {
        lemma_pass1_fluid_row_zero(t, bounds, r, i - 1);
        lemma_pass1_wf(t, bounds, i - 1);
        let cols = col_count(t);
        lemma_cell_index(i - 1, cols, t.cells@.len() as int);
        let row = (i - 1) / cols;
        let col = (i - 1) % cols;
        if row == r {
            assert(t.cells@[r * cols + col].spec_height_policy() is Fill);
            assert(r * cols + col == i - 1);
        }
    }
}

/// Through the second pass, the height of a row whose cells all declare and
/// honor fill heights equals the height unit times the largest factor seen
/// so far in that row.
#[verifier::spinoff_prover]
#[verifier::rlimit(60)]
proof fn lemma_pass2_fluid_row<C: Cell>(t: Table<C>, bounds: PxSize, r: int, i: int)
    requires
        t.wf(),
        bounds.wf(),
        0 <= r < row_count(t),
        spec_all_fill_row(t, r),
        spec_row_fills_bounds(t, r),
        spec_height_unit(t, bounds).v >= 0,
        0 <= i <= t.cells@.len(),
    ensures
        pass2_at(t, bounds, i).row_heights.len() == row_count(t),
        i <= r * col_count(t) ==> pass2_at(t, bounds, i).row_heights[r] == (Px { v: 0 }),
        i > r * col_count(t) ==> pass2_at(t, bounds, i).row_heights[r] == Px::spec_mul_count(
            spec_height_unit(t, bounds),
            row_max_factor_upto(
                t,
                r,
                if i - r * col_count(t) <= col_count(t) {
                    i - r * col_count(t)
                } else {
                    col_count(t)
                },
            ) as u64,
        ),
    decreases i,
{
    let cols = col_count(t);
    let hu = spec_height_unit(t, bounds);
    if i == 0 {
        lemma_pass1_wf(t, bounds, t.cells@.len() as int);
        lemma_pass1_fluid_row_zero(t, bounds, r, t.cells@.len() as int);
        if 0 > r * cols {
            assert(r * cols >= 0) by (nonlinear_arith)
                requires
                    r >= 0,
                    cols >= 0,
            ;
        }
    } else {
        lemma_pass2_fluid_row(t, bounds, r, i - 1);
        lemma_cell_index(i - 1, cols, t.cells@.len() as int);
        let row = (i - 1) / cols;
        let col = (i - 1) % cols;
        if row == r {
            assert(r * cols + col == i - 1);
            let k = i - 1 - r * cols;
            assert(col == k);
            let cell = t.cells@[i - 1];
            let hp = cell.spec_height_policy();
            let hf = hp.spec_fill_factor();
            assert(hp is Fill);
            let max_h = Px::spec_mul_count(hu, hf as u64);
            assert(max_h.v >= 0 && max_h.wf()) by {
                assert(hu.v * (hf as u64) >= 0) by (nonlinear_arith)
                    requires
                        hu.v >= 0,
                        hf as u64 >= 0,
                ;
            }
            assert(cell.spec_measure(spec_column_widths(t, bounds)[col], max_h).height == max_h);
            let prev_f = row_max_factor_upto(t, r, k);
            let new_f = row_max_factor_upto(t, r, k + 1);
            assert(new_f == if prev_f >= hf {
                prev_f
            } else {
                hf
            });
            lemma_mul_count_monotone(hu, prev_f, new_f);
            lemma_mul_count_monotone(hu, hf, new_f);
        } else if row < r {
            assert((row + 1) * cols <= r * cols) by (nonlinear_arith)
                requires
                    row + 1 <= r,
                    cols >= 0,
            ;
            assert(row * cols + col == i - 1);
            assert(i - 1 < (row + 1) * cols) by (nonlinear_arith)
                requires
                    i - 1 == row * cols + col,
                    col < cols,
            ;
        } else {
            assert(r * cols + cols <= row * cols) by (nonlinear_arith)
                requires
                    r + 1 <= row,
                    cols >= 0,
            ;
            assert(row * cols + col == i - 1);
            assert(i - 1 >= row * cols) by (nonlinear_arith)
                requires
                    i - 1 == row * cols + col,
                    col >= 0,
            ;
        }
    }
}

/// A larger count multiplies a non-negative length to a larger result.
proof fn lemma_mul_count_monotone(a: Px, m: u16, n: u16)
    requires
        a.v >= 0,
        m <= n,
    ensures
        Px::spec_mul_count(a, m as u64).v <= Px::spec_mul_count(a, n as u64).v,
{
    assert(a.v * (m as u64) <= a.v * (n as u64)) by (nonlinear_arith)
        requires
            a.v >= 0,
            m as u64 <= n as u64,
    ;
}

/// For a row whose cells all declare fill-factor heights and fill the bound
/// they are measured under, the final row height is the height unit times
/// the row's largest fill factor. The height unit is one value per layout
/// call, shared by every such row.
pub proof fn lemma_fluid_row_height<C: Cell>(t: Table<C>, bounds: PxSize, r: int)
    requires
        t.wf(),
        bounds.wf(),
        0 <= r < row_count(t),
        col_count(t) >= 1,
        spec_all_fill_row(t, r),
        spec_row_fills_bounds(t, r),
        spec_height_unit(t, bounds).v >= 0,
    ensures
        spec_row_heights(t, bounds)[r] == Px::spec_mul_count(
            spec_height_unit(t, bounds),
            spec_row_max_factor(t, r) as u64,
        ),
{
    let n = t.cells@.len() as int;
    let cols = col_count(t);
    lemma_pass2_fluid_row(t, bounds, r, n);
    assert(n == cols * (n / cols)) by {
        vstd::arithmetic::div_mod::lemma_fundamental_div_mod(n, cols);
    }
    assert(n >= r * cols + cols) by (nonlinear_arith)
        requires
            n == cols * (n / cols),
            r + 1 <= n / cols,
            cols >= 1,
    ;
}

} // verus!
