//! The grid: a table of columns and rows of cells.
//!
//! A `Table` holds a flat, row-major cell list (the header row first), one
//! rule per column, and the spacing parameters. Its `layout` method runs the
//! three-pass sizing algorithm:
//!
//! 1. measure every cell shrunk to its content, collecting intrinsic column
//!    widths, intrinsic row heights of non-fill cells, and row fill factors;
//! 2. distribute leftover horizontal space evenly across all columns, resolve
//!    the height unit for fill-factor rows, and remeasure every cell at its
//!    final column width;
//! 3. position every cell, aligning it inside its column-by-row box.
//!
//! The whole computation is mirrored by spec functions (`pass1_at`,
//! `pass2_at`, `pass3_at` and their wrappers), and `layout` returns exactly
//! the mirrored result: layout is a pure function of the table and the
//! bounds, so repeated calls agree bit for bit.

use vstd::prelude::*;
use crate::cell::{Cell, HAlign, Policy, PxSize, Rect, VAlign};
use crate::px::Px;

verus! {

/// The sizing and alignment rule of one column.
#[derive(Clone, Copy, PartialEq, Eq, Structural, Debug)]
pub struct ColumnRule {
    pub width: Policy,
    pub align_x: HAlign,
    pub align_y: VAlign,
}

/// A grid of cells distributed in columns and rows.
pub struct Table<C> {
    pub columns: Vec<ColumnRule>,
    pub cells: Vec<C>,
    pub width: Policy,
    pub height: Policy,
    pub max_width: Policy,
    pub padding_x: Px,
    pub padding_y: Px,
    pub separator_x: Px,
    pub separator_y: Px,
}

/// Per-layout output: one width per column and one height per row.
#[derive(Clone, PartialEq, Eq, Debug)]
pub struct Metrics {
    pub columns: Vec<Px>,
    pub rows: Vec<Px>,
}

/// Everything one layout call computes.
#[derive(Clone, PartialEq, Eq, Debug)]
pub struct LayoutResult {
    pub metrics: Metrics,
    /// The aligned box of every cell, in cell-list order, relative to the
    /// grid's own origin.
    pub boxes: Vec<Rect>,
    /// The grid's own resolved size.
    pub size: PxSize,
}

pub open spec fn col_count<C>(t: Table<C>) -> int {
    t.columns@.len() as int
}

pub open spec fn row_count<C>(t: Table<C>) -> int {
    if col_count(t) == 0 {
        0
    } else {
        t.cells@.len() as int / col_count(t)
    }
}

/// The gap inserted between two adjacent columns: padding on both sides of
/// the separator line, plus the line itself.
pub open spec fn spec_spacing_x<C>(t: Table<C>) -> Px {
    Px::spec_add(Px::spec_mul_count(t.padding_x, 2), t.separator_x)
}

pub open spec fn spec_spacing_y<C>(t: Table<C>) -> Px {
    Px::spec_add(Px::spec_mul_count(t.padding_y, 2), t.separator_y)
}

/// How a declared policy narrows an available length: a fixed length caps it,
/// any other policy leaves it unchanged.
pub open spec fn spec_apply_len(p: Policy, m: Px) -> Px {
    match p {
        Policy::Fixed(w) => Px::spec_max0(Px::spec_min(w, m)),
        _ => m,
    }
}

/// How a declared policy resolves a measured length against an available one.
pub open spec fn spec_resolve_len(p: Policy, intrinsic: Px, m: Px) -> Px {
    match p {
        Policy::Fill(_) => m,
        Policy::Fixed(w) => Px::spec_max0(Px::spec_min(w, m)),
        Policy::Shrink => Px::spec_max0(Px::spec_min(intrinsic, m)),
    }
}

/// The space available to the grid under the caller's bounds.
pub open spec fn spec_avail<C>(t: Table<C>, bounds: PxSize) -> PxSize {
    PxSize {
        width: spec_apply_len(t.width, bounds.width),
        height: spec_apply_len(t.height, bounds.height),
    }
}

/// The width cap: the caller's width bound narrowed by the `max_width` policy.
pub open spec fn spec_max_avail_width<C>(t: Table<C>, bounds: PxSize) -> Px {
    spec_apply_len(t.max_width, bounds.width)
}

pub open spec fn sum_px(s: Seq<Px>) -> Px
    decreases s.len(),
{
    if s.len() == 0 {
        Px { v: 0 }
    } else {
        Px::spec_add(sum_px(s.drop_last()), s.last())
    }
}

/// State carried through the first, intrinsic-measurement pass.
pub struct Pass1State {
    /// Running max of measured widths per column.
    pub col_widths: Seq<Px>,
    /// Running max of measured heights per row, over non-fill cells only.
    pub row_heights: Seq<Px>,
    pub x: Px,
    pub y: Px,
    /// Largest fill factor seen in the row being walked.
    pub row_factor: u16,
    /// Sum of the final `row_factor` of every finished row that had one.
    pub total_factors: int,
    /// Sum of intrinsic heights of finished rows that carry a fill factor.
    pub total_fluid: Px,
}

pub open spec fn pass1_init<C>(t: Table<C>) -> Pass1State {
    Pass1State {
        col_widths: Seq::new(col_count(t) as nat, |j: int| Px { v: 0 }),
        row_heights: Seq::new(row_count(t) as nat, |r: int| Px { v: 0 }),
        x: t.padding_x,
        y: t.padding_y,
        row_factor: 0,
        total_factors: 0,
        total_fluid: Px { v: 0 },
    }
}

/// One cell of the first pass: close the previous row when a new one starts,
/// then measure the cell shrunk to its content under the remaining space.
pub open spec fn pass1_step<C: Cell>(t: Table<C>, bounds: PxSize, st0: Pass1State, i: int) -> Pass1State {
    let row = i / col_count(t);
    let col = i % col_count(t);
    let st1 = if col == 0 && row > 0 {
        let grown = Px::spec_add(Px::spec_add(st0.y, st0.row_heights[row - 1]), spec_spacing_y(t));
        if st0.row_factor != 0 {
            Pass1State {
                x: t.padding_x,
                y: grown,
                total_fluid: Px::spec_add(st0.total_fluid, st0.row_heights[row - 1]),
                total_factors: st0.total_factors + st0.row_factor,
                row_factor: 0,
                ..st0
            }
        } else {
            Pass1State { x: t.padding_x, y: grown, ..st0 }
        }
    } else {
        st0
    };
    let cell = t.cells@[i];
    let hp = cell.spec_height_policy();
    let hf = hp.spec_fill_factor();
    let rf: u16 = if st1.row_factor >= hf {
        st1.row_factor
    } else {
        hf
    };
    let wb = Px::spec_sub(spec_avail(t, bounds).width, st1.x);
    let hb = Px::spec_sub(spec_avail(t, bounds).height, st1.y);
    let m = cell.spec_measure(wb, hb);
    let szw = Px::spec_max0(Px::spec_min(m.width, wb));
    let szh = Px::spec_max0(Px::spec_min(m.height, hb));
    let grown_cols = st1.col_widths.update(col, Px::spec_max(st1.col_widths[col], szw));
    let grown_rows = if hf == 0 && !hp.spec_is_fill() {
        st1.row_heights.update(row, Px::spec_max(st1.row_heights[row], szh))
    } else {
        st1.row_heights
    };
    Pass1State {
        col_widths: grown_cols,
        row_heights: grown_rows,
        x: Px::spec_add(st1.x, Px::spec_add(szw, spec_spacing_x(t))),
        row_factor: rf,
        ..st1
    }
}

/// The first pass after its first `i` cells.
pub open spec fn pass1_at<C: Cell>(t: Table<C>, bounds: PxSize, i: int) -> Pass1State
    decreases i,
{
    if i <= 0 {
        pass1_init(t)
    } else {
        pass1_step(t, bounds, pass1_at(t, bounds, i - 1), i - 1)
    }
}

/// The completed first pass: the last row's factor is folded into the totals.
pub open spec fn pass1_done<C: Cell>(t: Table<C>, bounds: PxSize) -> Pass1State {
    let st = pass1_at(t, bounds, t.cells@.len() as int);
    if st.row_factor != 0 && row_count(t) > 0 {
        Pass1State {
            total_fluid: Px::spec_add(st.total_fluid, st.row_heights[row_count(t) - 1]),
            total_factors: st.total_factors + st.row_factor,
            ..st
        }
    } else {
        st
    }
}

/// Horizontal space left for cell content once outer padding and the
/// inter-column gaps are taken out of the capped available width.
pub open spec fn spec_content_available<C: Cell>(t: Table<C>, bounds: PxSize) -> Px {
    let capped = Px::spec_min(spec_avail(t, bounds).width, spec_max_avail_width(t, bounds));
    let gaps = Px::spec_mul_count(
        spec_spacing_x(t),
        if col_count(t) == 0 {
            0u64
        } else {
            (col_count(t) - 1) as u64
        },
    );
    Px::spec_max0(
        Px::spec_sub(Px::spec_sub(capped, Px::spec_mul_count(t.padding_x, 2)), gaps),
    )
}

/// The even share of leftover width that every column receives.
pub open spec fn spec_share<C: Cell>(t: Table<C>, bounds: PxSize) -> Px {
    if col_count(t) == 0 {
        Px { v: 0 }
    } else {
        let remaining = Px::spec_max0(
            Px::spec_sub(
                spec_content_available(t, bounds),
                sum_px(pass1_done(t, bounds).col_widths),
            ),
        );
        Px::spec_div_count(remaining, col_count(t) as u64)
    }
}

/// Final column widths: intrinsic width plus the even share, per column.
pub open spec fn spec_final_widths<C: Cell>(t: Table<C>, bounds: PxSize) -> Seq<Px> {
    pass1_done(t, bounds).col_widths.map_values(|w: Px| Px::spec_add(w, spec_share(t, bounds)))
}

/// The height of one fill unit: what is left of the available height after
/// the fluid rows' intrinsic heights, the inter-row gaps and the outer
/// padding, divided by the sum of row fill factors. Deliberately not clamped:
/// over-constrained input makes it negative rather than hiding the overflow.
pub open spec fn spec_height_unit<C: Cell>(t: Table<C>, bounds: PxSize) -> Px {
    let st = pass1_done(t, bounds);
    if st.total_factors == 0 {
        Px { v: 0 }
    } else {
        let left = Px::spec_sub(spec_avail(t, bounds).height, st.total_fluid);
        let gaps = Px::spec_mul_count(
            spec_spacing_y(t),
            if row_count(t) == 0 {
                0u64
            } else {
                (row_count(t) - 1) as u64
            },
        );
        Px::spec_div_count(
            Px::spec_sub(Px::spec_sub(left, gaps), Px::spec_mul_count(t.padding_y, 2)),
            st.total_factors as u64,
        )
    }
}

/// State carried through the second, remeasurement pass.
pub struct Pass2State {
    /// Running max of remeasured heights per row, seeded with the first
    /// pass's intrinsic row heights.
    pub row_heights: Seq<Px>,
    /// The raw measured size of each cell walked so far.
    pub sizes: Seq<PxSize>,
    pub x: Px,
    pub y: Px,
}

pub open spec fn pass2_init<C: Cell>(t: Table<C>, bounds: PxSize) -> Pass2State {
    Pass2State {
        row_heights: pass1_done(t, bounds).row_heights,
        sizes: Seq::empty(),
        x: t.padding_x,
        y: t.padding_y,
    }
}

/// One cell of the second pass: remeasure at the final column width, under a
/// height bound resolved from the cell's fill factor.
pub open spec fn pass2_step<C: Cell>(t: Table<C>, bounds: PxSize, st0: Pass2State, i: int) -> Pass2State {
    let row = i / col_count(t);
    let col = i % col_count(t);
    let st1 = if col == 0 && row > 0 {
        Pass2State {
            x: t.padding_x,
            y: Px::spec_add(Px::spec_add(st0.y, st0.row_heights[row - 1]), spec_spacing_y(t)),
            ..st0
        }
    } else {
        st0
    };
    let cell = t.cells@[i];
    let hp = cell.spec_height_policy();
    let hf = hp.spec_fill_factor();
    let max_h = if hf == 0 {
        if hp.spec_is_fill() {
            st1.row_heights[row]
        } else {
            Px::spec_max0(Px::spec_sub(spec_avail(t, bounds).height, st1.y))
        }
    } else {
        Px::spec_mul_count(spec_height_unit(t, bounds), hf as u64)
    };
    let wcol = spec_final_widths(t, bounds)[col];
    let m = cell.spec_measure(wcol, max_h);
    let szh = Px::spec_max0(Px::spec_min(m.height, max_h));
    Pass2State {
        row_heights: st1.row_heights.update(row, Px::spec_max(st1.row_heights[row], szh)),
        sizes: st1.sizes.push(m),
        x: Px::spec_add(st1.x, Px::spec_add(wcol, spec_spacing_x(t))),
        y: st1.y,
    }
}

pub open spec fn pass2_at<C: Cell>(t: Table<C>, bounds: PxSize, i: int) -> Pass2State
    decreases i,
{
    if i <= 0 {
        pass2_init(t, bounds)
    } else {
        pass2_step(t, bounds, pass2_at(t, bounds, i - 1), i - 1)
    }
}

pub open spec fn pass2_done<C: Cell>(t: Table<C>, bounds: PxSize) -> Pass2State {
    pass2_at(t, bounds, t.cells@.len() as int)
}

/// The offset that aligns a content length inside a box length.
pub open spec fn spec_align_offset_x(a: HAlign, space: Px, size: Px) -> Px {
    match a {
        HAlign::Left => Px { v: 0 },
        HAlign::Center => Px::spec_div_count(Px::spec_sub(space, size), 2),
        HAlign::Right => Px::spec_sub(space, size),
    }
}

pub open spec fn spec_align_offset_y(a: VAlign, space: Px, size: Px) -> Px {
    match a {
        VAlign::Top => Px { v: 0 },
        VAlign::Center => Px::spec_div_count(Px::spec_sub(space, size), 2),
        VAlign::Bottom => Px::spec_sub(space, size),
    }
}

/// State carried through the third, positioning pass.
pub struct Pass3State {
    pub boxes: Seq<Rect>,
    pub x: Px,
    pub y: Px,
}

pub open spec fn pass3_init<C>(t: Table<C>) -> Pass3State {
    Pass3State { boxes: Seq::empty(), x: t.padding_x, y: t.padding_y }
}

/// One cell of the third pass: pure arithmetic, no remeasurement.
pub open spec fn pass3_step<C: Cell>(t: Table<C>, bounds: PxSize, st0: Pass3State, i: int) -> Pass3State {
    let row = i / col_count(t);
    let col = i % col_count(t);
    let rows2 = pass2_done(t, bounds).row_heights;
    let st1 = if col == 0 && row > 0 {
        Pass3State {
            x: t.padding_x,
            y: Px::spec_add(Px::spec_add(st0.y, rows2[row - 1]), spec_spacing_y(t)),
            ..st0
        }
    } else {
        st0
    };
    let m = pass2_done(t, bounds).sizes[i];
    let cw = spec_final_widths(t, bounds)[col];
    let rh = rows2[row];
    let rule = t.columns@[col];
    let bx = Rect {
        x: Px::spec_add(st1.x, spec_align_offset_x(rule.align_x, cw, m.width)),
        y: Px::spec_add(st1.y, spec_align_offset_y(rule.align_y, rh, m.height)),
        width: m.width,
        height: m.height,
    };
    Pass3State {
        boxes: st1.boxes.push(bx),
        x: Px::spec_add(st1.x, Px::spec_add(cw, spec_spacing_x(t))),
        y: st1.y,
    }
}

pub open spec fn pass3_at<C: Cell>(t: Table<C>, bounds: PxSize, i: int) -> Pass3State
    decreases i,
{
    if i <= 0 {
        pass3_init(t)
    } else {
        pass3_step(t, bounds, pass3_at(t, bounds, i - 1), i - 1)
    }
}

pub open spec fn pass3_done<C: Cell>(t: Table<C>, bounds: PxSize) -> Pass3State {
    pass3_at(t, bounds, t.cells@.len() as int)
}

/// The final column widths, empty when the table has no columns.
pub open spec fn spec_column_widths<C: Cell>(t: Table<C>, bounds: PxSize) -> Seq<Px> {
    spec_final_widths(t, bounds)
}

/// The final row heights.
pub open spec fn spec_row_heights<C: Cell>(t: Table<C>, bounds: PxSize) -> Seq<Px> {
    pass2_done(t, bounds).row_heights
}

/// The aligned box of every cell.
pub open spec fn spec_cell_boxes<C: Cell>(t: Table<C>, bounds: PxSize) -> Seq<Rect> {
    pass3_done(t, bounds).boxes
}

/// The grid's intrinsic size: padding plus content plus inter-cell gaps,
/// without the gap that would follow the last column or row.
pub open spec fn spec_intrinsic_size<C: Cell>(t: Table<C>, bounds: PxSize) -> PxSize {
    let w = Px::spec_add(Px::spec_sub(pass3_done(t, bounds).x, spec_spacing_x(t)), t.padding_x);
    let gaps = Px::spec_mul_count(
        spec_spacing_y(t),
        if row_count(t) == 0 {
            0u64
        } else {
            (row_count(t) - 1) as u64
        },
    );
    let h = Px::spec_sub(
        Px::spec_add(
            Px::spec_add(Px::spec_mul_count(t.padding_y, 2), sum_px(pass2_done(t, bounds).row_heights)),
            gaps,
        ),
        t.separator_y,
    );
    PxSize { width: w, height: h }
}

/// The grid's resolved size; a table with no columns is a zero-size grid.
pub open spec fn spec_grid_size<C: Cell>(t: Table<C>, bounds: PxSize) -> PxSize {
    if col_count(t) == 0 {
        PxSize { width: Px { v: 0 }, height: Px { v: 0 } }
    } else {
        let intrinsic = spec_intrinsic_size(t, bounds);
        PxSize {
            width: spec_resolve_len(t.width, intrinsic.width, spec_avail(t, bounds).width),
            height: spec_resolve_len(t.height, intrinsic.height, spec_avail(t, bounds).height),
        }
    }
}

/// A cell index within the list yields a column index within the columns and
/// a row index within the rows.
pub proof fn lemma_cell_index(i: int, cols: int, n: int)
    requires
        1 <= cols,
        0 <= i < n,
        n % cols == 0,
    ensures
        0 <= i % cols < cols,
        0 <= i / cols < n / cols,
        i == cols * (i / cols) + i % cols,
{
    vstd::arithmetic::div_mod::lemma_mod_bound(i, cols);
    vstd::arithmetic::div_mod::lemma_div_pos_is_pos(i, cols);
    vstd::arithmetic::div_mod::lemma_fundamental_div_mod(i, cols);
    vstd::arithmetic::div_mod::lemma_fundamental_div_mod(n, cols);
    assert(n == cols * (n / cols));
    vstd::arithmetic::div_mod::lemma_multiply_divide_lt(i, cols, n / cols);
}

/// Dividing a count by a positive count does not increase it.
pub proof fn lemma_div_le(n: int, cols: int)
    requires
        0 <= n,
        1 <= cols,
    ensures
        0 <= n / cols <= n,
{
    vstd::arithmetic::div_mod::lemma_div_pos_is_pos(n, cols);
    vstd::arithmetic::div_mod::lemma_div_is_ordered_by_denominator(n, 1, cols);
    assert(n / 1 == n);
}

fn zero_px_vec(n: usize) -> (v: Vec<Px>)
    ensures
        v@ == Seq::new(n as nat, |j: int| Px { v: 0 }),
{
    let mut v: Vec<Px> = Vec::new();
    while v.len() < n
        invariant
            v@.len() <= n,
            v@ == Seq::new(v@.len(), |j: int| Px { v: 0 }),
        decreases n - v.len(),
    {
        v.push(Px { v: 0 });
        proof {
            assert(v@ =~= Seq::new(v@.len(), |j: int| Px { v: 0 }));
        }
    }
    v
}

fn sum_vec(v: &Vec<Px>) -> (r: Px)
    requires
        forall|j: int| 0 <= j < v@.len() ==> (#[trigger] v@[j]).wf(),
    ensures
        r == sum_px(v@),
        r.wf(),
{
    let mut acc = Px::zero();
    let mut i: usize = 0;
    while i < v.len()
        invariant
            0 <= i <= v@.len(),
            forall|j: int| 0 <= j < v@.len() ==> (#[trigger] v@[j]).wf(),
            acc == sum_px(v@.take(i as int)),
            acc.wf(),
        decreases v@.len() - i,
    {
        proof {
            assert(v@.take(i as int + 1).drop_last() =~= v@.take(i as int));
            assert(v@.take(i as int + 1).last() == v@[i as int]);
        }
        acc = acc.add(v[i]);
        i = i + 1;
    }
    proof {
        assert(v@.take(v@.len() as int) =~= v@);
    }
    acc
}

fn apply_len(p: Policy, m: Px) -> (r: Px)
    requires
        p.wf(),
        m.wf(),
    ensures
        r == spec_apply_len(p, m),
        r.wf(),
{
    match p {
        Policy::Fixed(w) => w.min(m).max0(),
        _ => m,
    }
}

fn resolve_len(p: Policy, intrinsic: Px, m: Px) -> (r: Px)
    requires
        p.wf(),
        intrinsic.wf(),
        m.wf(),
    ensures
        r == spec_resolve_len(p, intrinsic, m),
        r.wf(),
{
    match p {
        Policy::Fill(_) => m,
        Policy::Fixed(w) => w.min(m).max0(),
        Policy::Shrink => intrinsic.min(m).max0(),
    }
}

impl<C: Cell> Table<C> {
    /// Structural soundness: the cell list is a whole number of rows, every
    /// cell and parameter is well formed, and the counts respect the engine's
    /// machine limits.
    pub open spec fn wf(self) -> bool {
        &&& self.columns@.len() <= 0xFFFF
        &&& self.cells@.len() <= 0xFFFF_FFFF
        &&& (self.columns@.len() == 0 ==> self.cells@.len() == 0)
        &&& (self.columns@.len() > 0 ==> self.cells@.len() as int % (self.columns@.len() as int)
            == 0)
        &&& self.padding_x.wf()
        &&& self.padding_y.wf()
        &&& self.separator_x.wf()
        &&& self.separator_y.wf()
        &&& self.width.wf()
        &&& self.height.wf()
        &&& self.max_width.wf()
        &&& forall|j: int|
            0 <= j < self.columns@.len() ==> (#[trigger] self.columns@[j]).width.wf()
        &&& forall|i: int| 0 <= i < self.cells@.len() ==> (#[trigger] self.cells@[i]).inv()
    }

    fn run_pass1(&self, bounds: PxSize) -> (r: (Vec<Px>, Vec<Px>, u64, Px))
        requires
            self.wf(),
            bounds.wf(),
        ensures
            r.0@ == pass1_done(*self, bounds).col_widths,
            r.1@ == pass1_done(*self, bounds).row_heights,
            r.2 as int == pass1_done(*self, bounds).total_factors,
            r.3 == pass1_done(*self, bounds).total_fluid,
            r.0@.len() == col_count(*self),
            r.1@.len() == row_count(*self),
            forall|j: int| 0 <= j < r.0@.len() ==> (#[trigger] r.0@[j]).wf(),
            forall|j: int| 0 <= j < r.1@.len() ==> (#[trigger] r.1@[j]).wf(),
            r.3.wf(),
    {
        let cols = self.columns.len();
        let n = self.cells.len();
        let rows = if cols == 0 {
            0
        } else {
            n / cols
        };
        let avail = PxSize {
            width: apply_len(self.width, bounds.width),
            height: apply_len(self.height, bounds.height),
        };
        let spacing_x = self.padding_x.mul_count(2).add(self.separator_x);
        let spacing_y = self.padding_y.mul_count(2).add(self.separator_y);
        let mut col_widths = zero_px_vec(cols);
        let mut row_heights = zero_px_vec(rows);
        let mut x = self.padding_x;
        let mut y = self.padding_y;
        let mut row_factor: u16 = 0;
        let mut total_factors: u64 = 0;
        let mut total_fluid = Px::zero();
        let mut i: usize = 0;
        while i < n
            invariant
                self.wf(),
                bounds.wf(),
                cols == col_count(*self),
                n == self.cells@.len(),
                rows == row_count(*self),
                avail == spec_avail(*self, bounds),
                avail.wf(),
                spacing_x == spec_spacing_x(*self),
                spacing_y == spec_spacing_y(*self),
                spacing_x.wf(),
                spacing_y.wf(),
                0 <= i <= n,
                col_widths@ == pass1_at(*self, bounds, i as int).col_widths,
                row_heights@ == pass1_at(*self, bounds, i as int).row_heights,
                x == pass1_at(*self, bounds, i as int).x,
                y == pass1_at(*self, bounds, i as int).y,
                row_factor == pass1_at(*self, bounds, i as int).row_factor,
                total_factors as int == pass1_at(*self, bounds, i as int).total_factors,
                total_fluid == pass1_at(*self, bounds, i as int).total_fluid,
                col_widths@.len() == cols,
                row_heights@.len() == rows,
                x.wf(),
                y.wf(),
                total_fluid.wf(),
                forall|j: int| 0 <= j < col_widths@.len() ==> (#[trigger] col_widths@[j]).wf(),
                forall|j: int| 0 <= j < row_heights@.len() ==> (#[trigger] row_heights@[j]).wf(),
                total_factors as int <= 0xFFFF * (i as int),
            decreases n - i,
        {
            proof {
                assert(cols >= 1);
                lemma_cell_index(i as int, cols as int, n as int);
            }
            let row = i / cols;
            let col = i % cols;
            if col == 0 && row > 0 {
                x = self.padding_x;
                let prev = row_heights[row - 1];
                y = y.add(prev).add(spacing_y);
                if row_factor != 0 {
                    total_fluid = total_fluid.add(prev);
                    total_factors = total_factors + (row_factor as u64);
                    row_factor = 0;
                }
            }
            proof {
                assert(self.cells@[i as int].inv());
            }
            let cellr = &self.cells[i];
            let hp = cellr.height_policy();
            let hf = hp.fill_factor();
            if row_factor < hf {
                row_factor = hf;
            }
            let wb = avail.width.sub(x);
            let hb = avail.height.sub(y);
            let m = cellr.measure(wb, hb);
            let szw = m.width.min(wb).max0();
            let szh = m.height.min(hb).max0();
            let oldw = col_widths[col];
            col_widths[col] = oldw.max(szw);
            if hf == 0 && !hp.is_fill() {
                let oldh = row_heights[row];
                row_heights[row] = oldh.max(szh);
            }
            x = x.add(szw.add(spacing_x));
            proof {
                let stn = pass1_at(*self, bounds, i as int + 1);
                assert(stn == pass1_step(*self, bounds, pass1_at(*self, bounds, i as int), i as int));
                assert(col_widths@ =~= stn.col_widths);
                assert(row_heights@ =~= stn.row_heights);
            }
            i = i + 1;
        }
        if row_factor != 0 && rows > 0 {
            let prev = row_heights[rows - 1];
            total_fluid = total_fluid.add(prev);
            total_factors = total_factors + (row_factor as u64);
        }
        (col_widths, row_heights, total_factors, total_fluid)
    }

    fn distribute(&self, bounds: PxSize, intrinsic: &Vec<Px>) -> (r: Vec<Px>)
        requires
            self.wf(),
            bounds.wf(),
            col_count(*self) >= 1,
            intrinsic@ == pass1_done(*self, bounds).col_widths,
            intrinsic@.len() == col_count(*self),
            forall|j: int| 0 <= j < intrinsic@.len() ==> (#[trigger] intrinsic@[j]).wf(),
        ensures
            r@ == spec_final_widths(*self, bounds),
            r@.len() == col_count(*self),
            forall|j: int| 0 <= j < r@.len() ==> (#[trigger] r@[j]).wf(),
    {
        let cols = self.columns.len();
        let avail_w = apply_len(self.width, bounds.width);
        let maxw = apply_len(self.max_width, bounds.width);
        let spacing_x = self.padding_x.mul_count(2).add(self.separator_x);
        let cm1 = (cols - 1) as u64;
        let ca = avail_w.min(maxw).sub(self.padding_x.mul_count(2)).sub(
            spacing_x.mul_count(cm1),
        ).max0();
        let ci = sum_vec(intrinsic);
        let remaining = ca.sub(ci).max0();
        let share = remaining.div_count(cols as u64);
        proof {
            assert(share == spec_share(*self, bounds));
        }
        let mut out: Vec<Px> = Vec::new();
        let mut j: usize = 0;
        while j < cols
            invariant
                self.wf(),
                bounds.wf(),
                cols == col_count(*self),
                intrinsic@ == pass1_done(*self, bounds).col_widths,
                intrinsic@.len() == cols,
                forall|k: int| 0 <= k < intrinsic@.len() ==> (#[trigger] intrinsic@[k]).wf(),
                share == spec_share(*self, bounds),
                share.wf(),
                0 <= j <= cols,
                out@.len() == j,
                forall|k: int|
                    0 <= k < j ==> out@[k] == #[trigger] spec_final_widths(*self, bounds)[k],
                forall|k: int| 0 <= k < out@.len() ==> (#[trigger] out@[k]).wf(),
            decreases cols - j,
        {
            out.push(intrinsic[j].add(share));
            j = j + 1;
        }
        proof {
            assert(out@ =~= spec_final_widths(*self, bounds));
        }
        out
    }

    fn height_unit(&self, bounds: PxSize, total_factors: u64, total_fluid: Px) -> (r: Px)
        requires
            self.wf(),
            bounds.wf(),
            total_factors as int == pass1_done(*self, bounds).total_factors,
            total_fluid == pass1_done(*self, bounds).total_fluid,
            total_fluid.wf(),
        ensures
            r == spec_height_unit(*self, bounds),
            r.wf(),
    {
        if total_factors == 0 {
            return Px::zero();
        }
        let cols = self.columns.len();
        proof {
            if cols == 0 {
                assert(self.cells@.len() == 0);
                assert(pass1_at(*self, bounds, 0) == pass1_init(*self));
                assert(false);
            }
        }
        let n = self.cells.len();
        let rows = n / cols;
        proof {
            lemma_div_le(n as int, cols as int);
        }
        let rm1 = if rows == 0 {
            0u64
        } else {
            (rows - 1) as u64
        };
        let avail_h = apply_len(self.height, bounds.height);
        let spacing_y = self.padding_y.mul_count(2).add(self.separator_y);
        avail_h.sub(total_fluid).sub(spacing_y.mul_count(rm1)).sub(
            self.padding_y.mul_count(2),
        ).div_count(total_factors)
    }

    fn run_pass2(&self, bounds: PxSize, widths: &Vec<Px>, rows1: Vec<Px>, hu: Px) -> (r: (
        Vec<Px>,
        Vec<PxSize>,
    ))
        requires
            self.wf(),
            bounds.wf(),
            widths@ == spec_final_widths(*self, bounds),
            widths@.len() == col_count(*self),
            forall|j: int| 0 <= j < widths@.len() ==> (#[trigger] widths@[j]).wf(),
            rows1@ == pass1_done(*self, bounds).row_heights,
            rows1@.len() == row_count(*self),
            forall|j: int| 0 <= j < rows1@.len() ==> (#[trigger] rows1@[j]).wf(),
            hu == spec_height_unit(*self, bounds),
            hu.wf(),
        ensures
            r.0@ == pass2_done(*self, bounds).row_heights,
            r.1@ == pass2_done(*self, bounds).sizes,
            r.0@.len() == row_count(*self),
            r.1@.len() == self.cells@.len(),
            forall|j: int| 0 <= j < r.0@.len() ==> (#[trigger] r.0@[j]).wf(),
            forall|j: int| 0 <= j < r.1@.len() ==> (#[trigger] r.1@[j]).wf(),
    {
        let cols = self.columns.len();
        let n = self.cells.len();
        let avail = PxSize {
            width: apply_len(self.width, bounds.width),
            height: apply_len(self.height, bounds.height),
        };
        let spacing_x = self.padding_x.mul_count(2).add(self.separator_x);
        let spacing_y = self.padding_y.mul_count(2).add(self.separator_y);
        let mut row_heights = rows1;
        let mut sizes: Vec<PxSize> = Vec::new();
        let mut x = self.padding_x;
        let mut y = self.padding_y;
        let mut i: usize = 0;
        while i < n
            invariant
                self.wf(),
                bounds.wf(),
                cols == col_count(*self),
                n == self.cells@.len(),
                avail == spec_avail(*self, bounds),
                avail.wf(),
                spacing_x == spec_spacing_x(*self),
                spacing_y == spec_spacing_y(*self),
                spacing_x.wf(),
                spacing_y.wf(),
                widths@ == spec_final_widths(*self, bounds),
                widths@.len() == cols,
                forall|j: int| 0 <= j < widths@.len() ==> (#[trigger] widths@[j]).wf(),
                hu == spec_height_unit(*self, bounds),
                hu.wf(),
                0 <= i <= n,
                row_heights@ == pass2_at(*self, bounds, i as int).row_heights,
                sizes@ == pass2_at(*self, bounds, i as int).sizes,
                x == pass2_at(*self, bounds, i as int).x,
                y == pass2_at(*self, bounds, i as int).y,
                row_heights@.len() == row_count(*self),
                sizes@.len() == i,
                x.wf(),
                y.wf(),
                forall|j: int| 0 <= j < row_heights@.len() ==> (#[trigger] row_heights@[j]).wf(),
                forall|j: int| 0 <= j < sizes@.len() ==> (#[trigger] sizes@[j]).wf(),
            decreases n - i,
        {
            proof {
                assert(cols >= 1);
                lemma_cell_index(i as int, cols as int, n as int);
            }
            let row = i / cols;
            let col = i % cols;
            if col == 0 && row > 0 {
                x = self.padding_x;
                let prev = row_heights[row - 1];
                y = y.add(prev).add(spacing_y);
            }
            proof {
                assert(self.cells@[i as int].inv());
            }
            let cellr = &self.cells[i];
            let hp = cellr.height_policy();
            let hf = hp.fill_factor();
            let max_h = if hf == 0 {
                if hp.is_fill() {
                    row_heights[row]
                } else {
                    avail.height.sub(y).max0()
                }
            } else {
                hu.mul_count(hf as u64)
            };
            let wcol = widths[col];
            let m = cellr.measure(wcol, max_h);
            let szh = m.height.min(max_h).max0();
            let oldh = row_heights[row];
            row_heights[row] = oldh.max(szh);
            sizes.push(m);
            x = x.add(wcol.add(spacing_x));
            proof {
                let stn = pass2_at(*self, bounds, i as int + 1);
                assert(stn == pass2_step(*self, bounds, pass2_at(*self, bounds, i as int), i as int));
                assert(row_heights@ =~= stn.row_heights);
                assert(sizes@ =~= stn.sizes);
            }
            i = i + 1;
        }
        (row_heights, sizes)
    }

    fn run_pass3(&self, bounds: PxSize, widths: &Vec<Px>, row_heights: &Vec<Px>, sizes: &Vec<
        PxSize,
    >) -> (r: (Vec<Rect>, Px))
        requires
            self.wf(),
            bounds.wf(),
            widths@ == spec_final_widths(*self, bounds),
            widths@.len() == col_count(*self),
            forall|j: int| 0 <= j < widths@.len() ==> (#[trigger] widths@[j]).wf(),
            row_heights@ == pass2_done(*self, bounds).row_heights,
            row_heights@.len() == row_count(*self),
            forall|j: int| 0 <= j < row_heights@.len() ==> (#[trigger] row_heights@[j]).wf(),
            sizes@ == pass2_done(*self, bounds).sizes,
            sizes@.len() == self.cells@.len(),
            forall|j: int| 0 <= j < sizes@.len() ==> (#[trigger] sizes@[j]).wf(),
        ensures
            r.0@ == pass3_done(*self, bounds).boxes,
            r.1 == pass3_done(*self, bounds).x,
            r.0@.len() == self.cells@.len(),
            r.1.wf(),
    {
        let cols = self.columns.len();
        let n = self.cells.len();
        let spacing_x = self.padding_x.mul_count(2).add(self.separator_x);
        let spacing_y = self.padding_y.mul_count(2).add(self.separator_y);
        let mut boxes: Vec<Rect> = Vec::new();
        let mut x = self.padding_x;
        let mut y = self.padding_y;
        let mut i: usize = 0;
        while i < n
            invariant
                self.wf(),
                bounds.wf(),
                cols == col_count(*self),
                n == self.cells@.len(),
                spacing_x == spec_spacing_x(*self),
                spacing_y == spec_spacing_y(*self),
                spacing_x.wf(),
                spacing_y.wf(),
                widths@ == spec_final_widths(*self, bounds),
                widths@.len() == cols,
                forall|j: int| 0 <= j < widths@.len() ==> (#[trigger] widths@[j]).wf(),
                row_heights@ == pass2_done(*self, bounds).row_heights,
                row_heights@.len() == row_count(*self),
                forall|j: int| 0 <= j < row_heights@.len() ==> (#[trigger] row_heights@[j]).wf(),
                sizes@ == pass2_done(*self, bounds).sizes,
                sizes@.len() == n,
                forall|j: int| 0 <= j < sizes@.len() ==> (#[trigger] sizes@[j]).wf(),
                0 <= i <= n,
                boxes@ == pass3_at(*self, bounds, i as int).boxes,
                x == pass3_at(*self, bounds, i as int).x,
                y == pass3_at(*self, bounds, i as int).y,
                boxes@.len() == i,
                x.wf(),
                y.wf(),
            decreases n - i,
        {
            proof {
                assert(cols >= 1);
                lemma_cell_index(i as int, cols as int, n as int);
            }
            let row = i / cols;
            let col = i % cols;
            if col == 0 && row > 0 {
                x = self.padding_x;
                let prev = row_heights[row - 1];
                y = y.add(prev).add(spacing_y);
            }
            let m = sizes[i];
            let cw = widths[col];
            let rh = row_heights[row];
            let rule = self.columns[col];
            let off_x = match rule.align_x {
                HAlign::Left => Px::zero(),
                HAlign::Center => cw.sub(m.width).div_count(2),
                HAlign::Right => cw.sub(m.width),
            };
            let off_y = match rule.align_y {
                VAlign::Top => Px::zero(),
                VAlign::Center => rh.sub(m.height).div_count(2),
                VAlign::Bottom => rh.sub(m.height),
            };
            let bx = Rect { x: x.add(off_x), y: y.add(off_y), width: m.width, height: m.height };
            boxes.push(bx);
            x = x.add(cw.add(spacing_x));
            proof {
                let stn = pass3_at(*self, bounds, i as int + 1);
                assert(stn == pass3_step(*self, bounds, pass3_at(*self, bounds, i as int), i as int));
                assert(boxes@ =~= stn.boxes);
            }
            i = i + 1;
        }
        (boxes, x)
    }

    /// Lays the cells out under the given bounds: three passes, no state kept
    /// between calls. The result is exactly the spec-level model of the same
    /// inputs, so two calls with equal inputs return equal results.
    pub fn layout(&self, bounds: PxSize) -> (r: LayoutResult)
        requires
            self.wf(),
            bounds.wf(),
        ensures
            r.metrics.columns@ == spec_column_widths(*self, bounds),
            r.metrics.rows@ == spec_row_heights(*self, bounds),
            r.boxes@ == spec_cell_boxes(*self, bounds),
            r.size == spec_grid_size(*self, bounds),
            r.metrics.columns@.len() == col_count(*self),
            r.metrics.rows@.len() == row_count(*self),
            r.boxes@.len() == self.cells@.len(),
            r.size.wf(),
            forall|j: int|
                0 <= j < r.metrics.columns@.len() ==> (#[trigger] r.metrics.columns@[j]).wf(),
            forall|j: int| 0 <= j < r.metrics.rows@.len() ==> (#[trigger] r.metrics.rows@[j]).wf(),
    {
        if self.columns.len() == 0 {
            proof {
                assert(pass1_at(*self, bounds, 0) == pass1_init(*self));
                assert(spec_column_widths(*self, bounds) =~= Seq::<Px>::empty());
                assert(pass2_at(*self, bounds, 0) == pass2_init(*self, bounds));
                assert(spec_row_heights(*self, bounds) =~= Seq::<Px>::empty());
                assert(pass3_at(*self, bounds, 0) == pass3_init(*self));
                assert(spec_cell_boxes(*self, bounds) =~= Seq::<Rect>::empty());
            }
            return LayoutResult {
                metrics: Metrics { columns: Vec::new(), rows: Vec::new() },
                boxes: Vec::new(),
                size: PxSize { width: Px::zero(), height: Px::zero() },
            };
        }
        let p1 = self.run_pass1(bounds);
        let widths = self.distribute(bounds, &p1.0);
        let hu = self.height_unit(bounds, p1.2, p1.3);
        let (rows2, sizes) = self.run_pass2(bounds, &widths, p1.1, hu);
        let (boxes, last_x) = self.run_pass3(bounds, &widths, &rows2, &sizes);
        let cols = self.columns.len();
        let n = self.cells.len();
        let rows = n / cols;
        proof {
            lemma_div_le(n as int, cols as int);
        }
        let rm1 = if rows == 0 {
            0u64
        } else {
            (rows - 1) as u64
        };
        let spacing_x = self.padding_x.mul_count(2).add(self.separator_x);
        let spacing_y = self.padding_y.mul_count(2).add(self.separator_y);
        let w = last_x.sub(spacing_x).add(self.padding_x);
        let sum_h = sum_vec(&rows2);
        let h = self.padding_y.mul_count(2).add(sum_h).add(spacing_y.mul_count(rm1)).sub(
            self.separator_y,
        );
        let avail = PxSize {
            width: apply_len(self.width, bounds.width),
            height: apply_len(self.height, bounds.height),
        };
        let size = PxSize {
            width: resolve_len(self.width, w, avail.width),
            height: resolve_len(self.height, h, avail.height),
        };
        LayoutResult { metrics: Metrics { columns: widths, rows: rows2 }, boxes, size }
    }
}

} // verus!
