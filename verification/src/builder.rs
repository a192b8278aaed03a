//! Building a table from column descriptors and row data.
//!
//! A `Column` describes one column: its header cell, a declared width policy
//! and the alignment of its cells. The cells of the body are produced by a
//! `RowView`: a pure function from a column index and a row item to a cell.
//! `Table::new` flattens headers and produced cells into one row-major list
//! (the header row first) and computes the sizing hints: if no column declares
//! a fill width, the first column is forced to fill, so the grid consumes the
//! available width instead of collapsing to its intrinsic size.

use vstd::prelude::*;
use crate::cell::{Cell, HAlign, Policy, VAlign};
use crate::px::Px;
use crate::table::{ColumnRule, Table};

verus! {

/// A column descriptor: a header cell, a width policy, and the alignment
/// applied to every cell of the column.
pub struct Column<C> {
    pub header: C,
    pub width: Policy,
    pub align_x: HAlign,
    pub align_y: VAlign,
}

/// Creates a new [`Column`] with the given header: shrink width, content at
/// the top left.
pub fn column<C: Cell>(header: C) -> (c: Column<C>)
    ensures
        c == (Column {
            header,
            width: Policy::Shrink,
            align_x: HAlign::Left,
            align_y: VAlign::Top,
        }),
{
    Column { header, width: Policy::Shrink, align_x: HAlign::Left, align_y: VAlign::Top }
}

impl<C> Column<C> {
    /// Sets the width of the [`Column`].
    pub fn width(self, width: Policy) -> (c: Column<C>)
        ensures
            c == (Column { width, ..self }),
    {
        Column { width, ..self }
    }

    /// Sets the alignment for the horizontal axis of the [`Column`].
    pub fn align_x(self, align: HAlign) -> (c: Column<C>)
        ensures
            c == (Column { align_x: align, ..self }),
    {
        Column { align_x: align, ..self }
    }

    /// Sets the alignment for the vertical axis of the [`Column`].
    pub fn align_y(self, align: VAlign) -> (c: Column<C>)
        ensures
            c == (Column { align_y: align, ..self }),
    {
        Column { align_y: align, ..self }
    }
}

/// Produces the cell of a given column for a given row item: a pure view
/// function, called once per column and row.
pub trait RowView<T, C: Cell> {
    /// The cell this view produces: what `cell` returns. The default leaves
    /// it unconstrained; a verified implementation overrides it.
    open spec fn spec_cell(&self, col: int, row: T) -> C {
        vstd::pervasive::arbitrary()
    }

    fn cell(&self, col: usize, row: &T) -> (c: C)
        ensures
            c == self.spec_cell(col as int, *row),
            c.inv(),
    ;
}

/// Whether some declared column width asks to fill the remaining space.
pub open spec fn spec_any_fill_width<C>(columns: Seq<Column<C>>) -> bool {
    exists|j: int| 0 <= j < columns.len() && (#[trigger] columns[j]).width is Fill
}

/// Whether some produced cell among the first `k` (in row-major production
/// order) declares a fill height, mirroring the builder's running hint.
pub open spec fn spec_any_fill_height<T, C: Cell, V: RowView<T, C>>(
    view: V,
    rows: Seq<T>,
    cols: int,
    k: int,
) -> bool
    decreases k,
{
    if k <= 0 || cols <= 0 {
        false
    } else {
        spec_any_fill_height(view, rows, cols, k - 1) || view.spec_cell(
            (k - 1) % cols,
            rows[(k - 1) / cols],
        ).spec_height_policy() is Fill
    }
}

impl<C: Cell> Table<C> {
    /// Creates a new [`Table`] with the given columns and rows.
    ///
    /// Columns can be created using the [`column()`] function; `view`
    /// produces the cell of each column for each row item. The flattened
    /// cell list is strictly row-major, the header row first.
    pub fn new<T, V: RowView<T, C>>(columns: Vec<Column<C>>, rows: &Vec<T>, view: &V) -> (t:
        Table<C>)
        requires
            columns@.len() <= 0xFFFF,
            columns@.len() + rows@.len() * columns@.len() <= 0xFFFF_FFFF,
            forall|j: int| 0 <= j < columns@.len() ==> (#[trigger] columns@[j]).header.inv(),
            forall|j: int| 0 <= j < columns@.len() ==> (#[trigger] columns@[j]).width.wf(),
        ensures
            t.wf(),
            t.columns@.len() == columns@.len(),
            t.cells@.len() == columns@.len() + rows@.len() * columns@.len(),
            forall|j: int| 0 <= j < columns@.len() ==> t.cells@[j] == (#[trigger] columns@[j]).header,
            forall|r: int, j: int|
                0 <= r < rows@.len() && 0 <= j < columns@.len() ==> t.cells@[columns@.len() + r
                    * columns@.len() + j] == #[trigger] view.spec_cell(j, rows@[r]),
            forall|j: int|
                0 <= j < columns@.len() ==> (#[trigger] t.columns@[j]).align_x == columns@[j].align_x
                    && t.columns@[j].align_y == columns@[j].align_y,
            spec_any_fill_width(columns@) ==> forall|j: int|
                0 <= j < columns@.len() ==> (#[trigger] t.columns@[j]).width == columns@[j].width,
            !spec_any_fill_width(columns@) ==> forall|j: int|
                1 <= j < columns@.len() ==> (#[trigger] t.columns@[j]).width == columns@[j].width,
            !spec_any_fill_width(columns@) && columns@.len() > 0 ==> t.columns@[0].width
                == Policy::Fill(1),
            t.width == (if spec_any_fill_width(columns@) {
                Policy::Fill(1u16)
            } else {
                Policy::Shrink
            }),
            t.height == (if spec_any_fill_height(
                *view,
                rows@,
                columns@.len() as int,
                (rows@.len() * columns@.len()) as int,
            ) {
                Policy::Fill(1u16)
            } else {
                Policy::Shrink
            }),
            t.max_width == Policy::Fill(1u16),
            t.padding_x == Px::spec_of(10),
            t.padding_y == Px::spec_of(5),
            t.separator_x == Px::spec_of(1),
            t.separator_y == Px::spec_of(1),
    {
        let cols_n = columns.len();
        let ghost columns0 = columns@;
        let mut columns = columns;
        let mut rules: Vec<ColumnRule> = Vec::new();
        let mut cells: Vec<C> = Vec::new();
        let mut any_w = false;
        let mut j: usize = 0;
        while j < cols_n
            invariant
                cols_n == columns0.len(),
                cols_n <= 0xFFFF,
                0 <= j <= cols_n,
                columns@ == columns0.skip(j as int),
                forall|k: int| 0 <= k < cols_n ==> (#[trigger] columns0[k]).header.inv(),
                forall|k: int| 0 <= k < cols_n ==> (#[trigger] columns0[k]).width.wf(),
                rules@.len() == j,
                cells@.len() == j,
                forall|k: int| 0 <= k < j ==> cells@[k] == (#[trigger] columns0[k]).header,
                forall|k: int| 0 <= k < j ==> (#[trigger] cells@[k]).inv(),
                forall|k: int|
                    0 <= k < j ==> (#[trigger] rules@[k]) == (ColumnRule {
                        width: columns0[k].width,
                        align_x: columns0[k].align_x,
                        align_y: columns0[k].align_y,
                    }),
                any_w == exists|k: int| 0 <= k < j && (#[trigger] columns0[k]).width is Fill,
            decreases cols_n - j,
        {
            let c = columns.remove(0);
            proof {
                assert(c == columns0[j as int]);
            }
            if c.width.is_fill() {
                any_w = true;
            }
            rules.push(ColumnRule { width: c.width, align_x: c.align_x, align_y: c.align_y });
            cells.push(c.header);
            j = j + 1;
            proof {
                if any_w && !(exists|k: int|
                    0 <= k < j && (#[trigger] columns0[k]).width is Fill) {
                    assert(false);
                }
            }
        }
        let mut any_h = false;
        let mut r: usize = 0;
        while r < rows.len()
            invariant
                cols_n == columns0.len(),
                cols_n <= 0xFFFF,
                cols_n + rows@.len() * cols_n <= 0xFFFF_FFFF,
                0 <= r <= rows@.len(),
                cells@.len() == cols_n + r * cols_n,
                forall|k: int| 0 <= k < cols_n ==> cells@[k] == (#[trigger] columns0[k]).header,
                forall|k: int| 0 <= k < cells@.len() ==> (#[trigger] cells@[k]).inv(),
                forall|q: int, k: int|
                    0 <= q < r && 0 <= k < cols_n ==> cells@[cols_n + q * cols_n + k]
                        == #[trigger] view.spec_cell(k, rows@[q]),
                any_h == spec_any_fill_height(*view, rows@, cols_n as int, r * cols_n),
            decreases rows@.len() - r,
        {
            let mut k: usize = 0;
            while k < cols_n
                invariant
                    cols_n == columns0.len(),
                    0 <= r < rows@.len(),
                    0 <= k <= cols_n,
                    cells@.len() == cols_n + r * cols_n + k,
                    forall|q: int| 0 <= q < cols_n ==> cells@[q] == (#[trigger] columns0[q]).header,
                    forall|q: int| 0 <= q < cells@.len() ==> (#[trigger] cells@[q]).inv(),
                    forall|q: int, p: int|
                        0 <= q < r && 0 <= p < cols_n ==> cells@[cols_n + q * cols_n + p]
                            == #[trigger] view.spec_cell(p, rows@[q]),
                    forall|p: int|
                        0 <= p < k ==> cells@[cols_n + r * cols_n + p] == view.spec_cell(
                            p,
                            #[trigger] rows@[r as int],
                        ),
                    any_h == spec_any_fill_height(
                        *view,
                        rows@,
                        cols_n as int,
                        r * cols_n + k,
                    ),
                decreases cols_n - k,
            {
                let c = view.cell(k, &rows[r]);
                let hp = c.height_policy();
                proof {
                    assert forall|q: int| 0 <= q < r as int implies #[trigger] (q * cols_n as int)
                        + cols_n as int <= r as int * cols_n as int by {
                        vstd::arithmetic::mul::lemma_mul_inequality(q + 1, r as int, cols_n as int);
                        assert((q + 1) * cols_n as int == q * cols_n as int + cols_n as int)
                            by (nonlinear_arith);
                    }
                    let kk = (r * cols_n + k) as int;
                    vstd::arithmetic::div_mod::lemma_fundamental_div_mod_converse(
                        kk,
                        cols_n as int,
                        r as int,
                        k as int,
                    );
                    assert(spec_any_fill_height(*view, rows@, cols_n as int, kk + 1)
                        == (spec_any_fill_height(*view, rows@, cols_n as int, kk)
                        || view.spec_cell(kk % cols_n as int, rows@[kk / cols_n as int])
                            .spec_height_policy() is Fill));
                }
                if hp.is_fill() {
                    any_h = true;
                }
                cells.push(c);
                k = k + 1;
            }
            proof {
                assert((r as int + 1) * cols_n as int == r as int * cols_n as int + cols_n as int)
                    by (nonlinear_arith);
            }
            r = r + 1;
        }
        if !any_w && cols_n > 0 {
            let r0 = rules[0];
            rules[0] = ColumnRule { width: Policy::Fill(1), align_x: r0.align_x, align_y: r0.align_y };
        }
        let width = if any_w {
            Policy::Fill(1)
        } else {
            Policy::Shrink
        };
        let height = if any_h {
            Policy::Fill(1)
        } else {
            Policy::Shrink
        };
        let t = Table {
            columns: rules,
            cells,
            width,
            height,
            max_width: Policy::Fill(1),
            padding_x: Px::of(10),
            padding_y: Px::of(5),
            separator_x: Px::of(1),
            separator_y: Px::of(1),
        };
        proof {
            if cols_n > 0 {
                vstd::arithmetic::div_mod::lemma_mod_multiples_basic(
                    1 + rows@.len() as int,
                    cols_n as int,
                );
            }
            assert((1 + rows@.len() as int) * cols_n as int == cols_n as int + rows@.len() as int
                * cols_n as int) by (nonlinear_arith);
            assert forall|q: int| 0 <= q < rows@.len() as int implies #[trigger] (q * cols_n as int)
                + cols_n as int <= rows@.len() as int * cols_n as int by {
                vstd::arithmetic::mul::lemma_mul_inequality(q + 1, rows@.len() as int, cols_n as int);
                assert((q + 1) * cols_n as int == q * cols_n as int + cols_n as int)
                    by (nonlinear_arith);
            }
        }
        t
    }

    /// Sets the width policy of the [`Table`].
    pub fn width(self, width: Policy) -> (t: Table<C>)
        ensures
            t == (Table { width, ..self }),
    {
        Table { width, ..self }
    }

    /// Sets the maximum-width cap of the [`Table`].
    pub fn max_width(self, width: Policy) -> (t: Table<C>)
        ensures
            t == (Table { max_width: width, ..self }),
    {
        Table { max_width: width, ..self }
    }

    /// Sets the padding of the cells of the [`Table`] on both axes.
    pub fn padding(self, padding: Px) -> (t: Table<C>)
        ensures
            t == (Table { padding_x: padding, padding_y: padding, ..self }),
    {
        self.padding_x(padding).padding_y(padding)
    }

    /// Sets the horizontal padding of the cells of the [`Table`].
    pub fn padding_x(self, padding: Px) -> (t: Table<C>)
        ensures
            t == (Table { padding_x: padding, ..self }),
    {
        Table { padding_x: padding, ..self }
    }

    /// Sets the vertical padding of the cells of the [`Table`].
    pub fn padding_y(self, padding: Px) -> (t: Table<C>)
        ensures
            t == (Table { padding_y: padding, ..self }),
    {
        Table { padding_y: padding, ..self }
    }

    /// Sets the thickness of both line separators of the [`Table`].
    pub fn separator(self, separator: Px) -> (t: Table<C>)
        ensures
            t == (Table { separator_x: separator, separator_y: separator, ..self }),
    {
        self.separator_x(separator).separator_y(separator)
    }

    /// Sets the thickness of the vertical line separator between columns.
    pub fn separator_x(self, separator: Px) -> (t: Table<C>)
        ensures
            t == (Table { separator_x: separator, ..self }),
    {
        Table { separator_x: separator, ..self }
    }

    /// Sets the thickness of the horizontal line separator between rows.
    pub fn separator_y(self, separator: Px) -> (t: Table<C>)
        ensures
            t == (Table { separator_y: separator, ..self }),
    {
        Table { separator_y: separator, ..self }
    }
}

/// Creates a new [`Table`] with the given columns and rows: the same
/// construction as [`Table::new`].
pub fn table<T, C: Cell, V: RowView<T, C>>(columns: Vec<Column<C>>, rows: &Vec<T>, view: &V) -> (t:
    Table<C>)
    requires
        columns@.len() <= 0xFFFF,
        columns@.len() + rows@.len() * columns@.len() <= 0xFFFF_FFFF,
        forall|j: int| 0 <= j < columns@.len() ==> (#[trigger] columns@[j]).header.inv(),
        forall|j: int| 0 <= j < columns@.len() ==> (#[trigger] columns@[j]).width.wf(),
    ensures
        t.wf(),
        t.columns@.len() == columns@.len(),
        t.cells@.len() == columns@.len() + rows@.len() * columns@.len(),
        forall|j: int| 0 <= j < columns@.len() ==> t.cells@[j] == (#[trigger] columns@[j]).header,
        forall|r: int, j: int|
            0 <= r < rows@.len() && 0 <= j < columns@.len() ==> t.cells@[columns@.len() + r
                * columns@.len() + j] == #[trigger] view.spec_cell(j, rows@[r]),
        forall|j: int|
            0 <= j < columns@.len() ==> (#[trigger] t.columns@[j]).align_x == columns@[j].align_x
                && t.columns@[j].align_y == columns@[j].align_y,
        spec_any_fill_width(columns@) ==> forall|j: int|
            0 <= j < columns@.len() ==> (#[trigger] t.columns@[j]).width == columns@[j].width,
        !spec_any_fill_width(columns@) ==> forall|j: int|
            1 <= j < columns@.len() ==> (#[trigger] t.columns@[j]).width == columns@[j].width,
        !spec_any_fill_width(columns@) && columns@.len() > 0 ==> t.columns@[0].width
            == Policy::Fill(1),
        t.width == (if spec_any_fill_width(columns@) {
            Policy::Fill(1u16)
        } else {
            Policy::Shrink
        }),
        t.max_width == Policy::Fill(1u16),
        t.padding_x == Px::spec_of(10),
        t.padding_y == Px::spec_of(5),
        t.separator_x == Px::spec_of(1),
        t.separator_y == Px::spec_of(1),
{
    Table::new(columns, rows, view)
}

} // verus!
