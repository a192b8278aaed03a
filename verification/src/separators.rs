//! Separator geometry.
//!
//! After layout, one thin filled rectangle is drawn at each interior boundary
//! between adjacent columns (a vertical line spanning the grid's height) and
//! between adjacent rows (a horizontal line spanning the grid's width). No
//! separator stands before the first or after the last column or row, so a
//! grid of `C` columns and `R` rows has exactly `C - 1` vertical and `R - 1`
//! horizontal separators, and none at all when the thickness is zero.
//!
//! Rectangles are relative to the grid's origin; drawing them is the host's
//! business.

use vstd::prelude::*;
use crate::cell::{Cell, PxSize, Rect};
use crate::px::Px;
use crate::table::{Metrics, Table};

verus! {

/// The x cursor standing before the `k`-th vertical separator is emitted:
/// left padding, then for each earlier boundary its column's width and the
/// full gap around the separator line.
pub open spec fn vsep_cursor<C>(t: Table<C>, widths: Seq<Px>, k: int) -> Px
    decreases k,
{
    if k <= 0 {
        t.padding_x
    } else {
        Px::spec_add(
            Px::spec_add(
                Px::spec_add(Px::spec_add(vsep_cursor(t, widths, k - 1), widths[k - 1]), t.padding_x),
                t.separator_x,
            ),
            t.padding_x,
        )
    }
}

/// The x position of the `k`-th vertical separator line.
pub open spec fn vsep_pos<C>(t: Table<C>, widths: Seq<Px>, k: int) -> Px {
    Px::spec_add(Px::spec_add(vsep_cursor(t, widths, k), widths[k]), t.padding_x)
}

/// All vertical separator lines of a grid with the given column widths.
pub open spec fn spec_vertical_separators<C>(t: Table<C>, widths: Seq<Px>, grid: PxSize) -> Seq<
    Rect,
> {
    if t.separator_x.v > 0 && widths.len() >= 1 {
        Seq::new(
            (widths.len() - 1) as nat,
            |k: int|
                Rect {
                    x: vsep_pos(t, widths, k),
                    y: Px { v: 0 },
                    width: t.separator_x,
                    height: grid.height,
                },
        )
    } else {
        Seq::empty()
    }
}

/// The y cursor standing before the `k`-th horizontal separator is emitted.
pub open spec fn hsep_cursor<C>(t: Table<C>, heights: Seq<Px>, k: int) -> Px
    decreases k,
{
    if k <= 0 {
        t.padding_y
    } else {
        Px::spec_add(
            Px::spec_add(
                Px::spec_add(Px::spec_add(hsep_cursor(t, heights, k - 1), heights[k - 1]), t.padding_y),
                t.separator_y,
            ),
            t.padding_y,
        )
    }
}

/// The y position of the `k`-th horizontal separator line.
pub open spec fn hsep_pos<C>(t: Table<C>, heights: Seq<Px>, k: int) -> Px {
    Px::spec_add(Px::spec_add(hsep_cursor(t, heights, k), heights[k]), t.padding_y)
}

/// All horizontal separator lines of a grid with the given row heights.
pub open spec fn spec_horizontal_separators<C>(t: Table<C>, heights: Seq<Px>, grid: PxSize) -> Seq<
    Rect,
> {
    if t.separator_y.v > 0 && heights.len() >= 1 {
        Seq::new(
            (heights.len() - 1) as nat,
            |k: int|
                Rect {
                    x: Px { v: 0 },
                    y: hsep_pos(t, heights, k),
                    width: grid.width,
                    height: t.separator_y,
                },
        )
    } else {
        Seq::empty()
    }
}

impl<C: Cell> Table<C> {
    /// The vertical separator lines between adjacent columns: one per
    /// interior boundary, `C - 1` in all, none when the thickness is zero.
    pub fn vertical_separators(&self, metrics: &Metrics, grid: PxSize) -> (v: Vec<Rect>)
        requires
            self.padding_x.wf(),
            self.separator_x.wf(),
            grid.wf(),
            forall|j: int| 0 <= j < metrics.columns@.len() ==> (#[trigger] metrics.columns@[j]).wf(),
        ensures
            v@ == spec_vertical_separators(*self, metrics.columns@, grid),
            v@.len() == if self.separator_x.v > 0 && metrics.columns@.len() >= 1 {
                metrics.columns@.len() - 1
            } else {
                0
            },
    {
        let mut v: Vec<Rect> = Vec::new();
        if self.separator_x.v <= 0 || metrics.columns.len() == 0 {
            return v;
        }
        let last = metrics.columns.len() - 1;
        let mut x = self.padding_x;
        let mut k: usize = 0;
        while k < last
            invariant
                self.padding_x.wf(),
                self.separator_x.wf(),
                self.separator_x.v > 0,
                grid.wf(),
                forall|j: int| 0 <= j < metrics.columns@.len() ==> (#[trigger] metrics.columns@[j]).wf(),
                last == metrics.columns@.len() - 1,
                0 <= k <= last,
                x == vsep_cursor(*self, metrics.columns@, k as int),
                x.wf(),
                v@.len() == k,
                forall|q: int|
                    0 <= q < k ==> v@[q] == #[trigger] spec_vertical_separators(
                        *self,
                        metrics.columns@,
                        grid,
                    )[q],
            decreases last - k,
        {
            let pos = x.add(metrics.columns[k]).add(self.padding_x);
            v.push(Rect { x: pos, y: Px::zero(), width: self.separator_x, height: grid.height });
            x = pos.add(self.separator_x).add(self.padding_x);
            k = k + 1;
        }
        proof {
            assert(v@ =~= spec_vertical_separators(*self, metrics.columns@, grid));
        }
        v
    }

    /// The horizontal separator lines between adjacent rows: one per interior
    /// boundary, `R - 1` in all, none when the thickness is zero.
    pub fn horizontal_separators(&self, metrics: &Metrics, grid: PxSize) -> (v: Vec<Rect>)
        requires
            self.padding_y.wf(),
            self.separator_y.wf(),
            grid.wf(),
            forall|j: int| 0 <= j < metrics.rows@.len() ==> (#[trigger] metrics.rows@[j]).wf(),
        ensures
            v@ == spec_horizontal_separators(*self, metrics.rows@, grid),
            v@.len() == if self.separator_y.v > 0 && metrics.rows@.len() >= 1 {
                metrics.rows@.len() - 1
            } else {
                0
            },
    {
        let mut v: Vec<Rect> = Vec::new();
        if self.separator_y.v <= 0 || metrics.rows.len() == 0 {
            return v;
        }
        let last = metrics.rows.len() - 1;
        let mut y = self.padding_y;
        let mut k: usize = 0;
        while k < last
            invariant
                self.padding_y.wf(),
                self.separator_y.wf(),
                self.separator_y.v > 0,
                grid.wf(),
                forall|j: int| 0 <= j < metrics.rows@.len() ==> (#[trigger] metrics.rows@[j]).wf(),
                last == metrics.rows@.len() - 1,
                0 <= k <= last,
                y == hsep_cursor(*self, metrics.rows@, k as int),
                y.wf(),
                v@.len() == k,
                forall|q: int|
                    0 <= q < k ==> v@[q] == #[trigger] spec_horizontal_separators(
                        *self,
                        metrics.rows@,
                        grid,
                    )[q],
            decreases last - k,
        {
            let pos = y.add(metrics.rows[k]).add(self.padding_y);
            v.push(Rect { x: Px::zero(), y: pos, width: grid.width, height: self.separator_y });
            y = pos.add(self.separator_y).add(self.padding_y);
            k = k + 1;
        }
        proof {
            assert(v@ =~= spec_horizontal_separators(*self, metrics.rows@, grid));
        }
        v
    }
}

} // verus!
