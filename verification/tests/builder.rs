use gridtable::builder::{table, Column, RowView};
use gridtable::cell::{FixedCell, HAlign, Policy, PxSize, VAlign};
use gridtable::px::Px;
use gridtable::table::Table;

struct PairView;

impl RowView<(i64, i64), FixedCell> for PairView {
    fn cell(&self, col: usize, row: &(i64, i64)) -> FixedCell {
        let w = if col == 0 { row.0 } else { row.1 };
        FixedCell::shrink(PxSize::new(Px::of(w), Px::of(20)))
    }
}

fn header(w: i64) -> FixedCell {
    FixedCell::shrink(PxSize::new(Px::of(w), Px::of(15)))
}

fn col_of(header: FixedCell) -> Column<FixedCell> {
    gridtable::builder::column(header)
}

#[test]
fn builder_flattens_row_major_with_headers_first() {
    let cols = vec![col_of(header(30)), col_of(header(40))];
    let rows = vec![(30, 40), (50, 60)];
    let t = table(cols, &rows, &PairView);
    assert_eq!(t.cells.len(), 6);
    assert_eq!(t.cells[0], header(30));
    assert_eq!(t.cells[1], header(40));
    assert_eq!(t.cells[2], PairView.cell(0, &(30, 40)));
    assert_eq!(t.cells[3], PairView.cell(1, &(30, 40)));
    assert_eq!(t.cells[4], PairView.cell(0, &(50, 60)));
    assert_eq!(t.cells[5], PairView.cell(1, &(50, 60)));
}

#[test]
fn first_column_is_forced_to_fill_when_none_does() {
    let cols = vec![col_of(header(30)), col_of(header(40))];
    let rows = vec![(30, 40)];
    let t = table(cols, &rows, &PairView);
    assert_eq!(t.columns[0].width, Policy::Fill(1));
    assert_eq!(t.columns[1].width, Policy::Shrink);
    assert_eq!(t.width, Policy::Shrink);
}

#[test]
fn declared_fill_column_is_kept_as_declared() {
    let cols = vec![col_of(header(30)), col_of(header(40)).width(Policy::Fill(3))];
    let rows = vec![(30, 40)];
    let t = table(cols, &rows, &PairView);
    assert_eq!(t.columns[0].width, Policy::Shrink);
    assert_eq!(t.columns[1].width, Policy::Fill(3));
    assert_eq!(t.width, Policy::Fill(1));
}

#[test]
fn column_alignment_is_carried_over() {
    let cols = vec![col_of(header(30)).align_x(HAlign::Right).align_y(VAlign::Bottom)];
    let rows = vec![(30, 40)];
    let t = table(cols, &rows, &PairView);
    assert_eq!(t.columns[0].align_x, HAlign::Right);
    assert_eq!(t.columns[0].align_y, VAlign::Bottom);
}

struct FillView;

impl RowView<i64, FixedCell> for FillView {
    fn cell(&self, _col: usize, row: &i64) -> FixedCell {
        FixedCell::new(PxSize::new(Px::of(*row), Px::of(0)), Policy::Shrink, Policy::Fill(1))
    }
}

#[test]
fn height_hint_follows_cell_policies() {
    // Shrink-height cells leave the table's height policy at shrink; a view
    // producing fill-height cells turns it into fill.
    let t = table(vec![col_of(header(30))], &vec![(30, 40)], &PairView);
    assert_eq!(t.height, Policy::Shrink);
    let t = table(vec![col_of(header(30))], &vec![7i64], &FillView);
    assert_eq!(t.height, Policy::Fill(1));
}

#[test]
fn builder_defaults() {
    let cols = vec![col_of(header(30))];
    let rows: Vec<(i64, i64)> = vec![];
    let t = table(cols, &rows, &PairView);
    assert_eq!(t.padding_x, Px::of(10));
    assert_eq!(t.padding_y, Px::of(5));
    assert_eq!(t.separator_x, Px::of(1));
    assert_eq!(t.separator_y, Px::of(1));
    assert_eq!(t.max_width, Policy::Fill(1));
}

#[test]
fn header_only_grid_has_one_row() {
    let cols = vec![col_of(header(30)), col_of(header(40))];
    let rows: Vec<(i64, i64)> = vec![];
    let t = table(cols, &rows, &PairView);
    assert_eq!(t.cells.len(), 2);
    let r = t.layout(PxSize::new(Px::of(200), Px::of(100)));
    assert_eq!(r.metrics.columns.len(), 2);
    assert_eq!(r.metrics.rows.len(), 1);
}

#[test]
fn empty_column_list_degrades_to_an_empty_grid() {
    let cols: Vec<Column<FixedCell>> = vec![];
    let rows = vec![(30, 40)];
    let t = table(cols, &rows, &PairView);
    assert_eq!(t.cells.len(), 0);
    let r = t.layout(PxSize::new(Px::of(200), Px::of(100)));
    assert!(r.metrics.columns.is_empty());
    assert_eq!(r.size, PxSize::new(Px::of(0), Px::of(0)));
}

#[test]
fn table_setters_update_spacing_and_policies() {
    let cols = vec![col_of(header(30))];
    let rows = vec![(30, 40)];
    let t = table(cols, &rows, &PairView)
        .width(Policy::Fixed(Px::of(300)))
        .max_width(Policy::Fixed(Px::of(250)))
        .padding(Px::of(2))
        .separator(Px::of(3));
    assert_eq!(t.width, Policy::Fixed(Px::of(300)));
    assert_eq!(t.max_width, Policy::Fixed(Px::of(250)));
    assert_eq!(t.padding_x, Px::of(2));
    assert_eq!(t.padding_y, Px::of(2));
    assert_eq!(t.separator_x, Px::of(3));
    assert_eq!(t.separator_y, Px::of(3));
    let t = t.padding_x(Px::of(4)).padding_y(Px::of(5)).separator_x(Px::of(6)).separator_y(
        Px::of(7),
    );
    assert_eq!((t.padding_x, t.padding_y), (Px::of(4), Px::of(5)));
    assert_eq!((t.separator_x, t.separator_y), (Px::of(6), Px::of(7)));
}

#[test]
fn built_table_lays_out_with_headers_measured() {
    // Headers 30/40 wide, body cells 50/60 wide: intrinsic column widths are
    // the column-wise maxima 50 and 60.
    let cols = vec![col_of(header(30)), col_of(header(40))];
    let rows = vec![(50, 60)];
    let t: Table<FixedCell> = table(cols, &rows, &PairView)
        .width(Policy::Shrink)
        .max_width(Policy::Fixed(Px::of(131)))
        .padding(Px::of(0))
        .separator(Px::of(0));
    // Content space 131, intrinsic 110, share 10.5 per column.
    let r = t.layout(PxSize::new(Px::of(131), Px::of(100)));
    assert_eq!(
        r.metrics.columns,
        vec![Px::of_scaled(60 * 65536 + 32768), Px::of_scaled(70 * 65536 + 32768)]
    );
}
