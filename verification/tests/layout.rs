use gridtable::cell::{FixedCell, HAlign, Policy, PxSize, VAlign};
use gridtable::px::{Px, LIM};
use gridtable::table::{ColumnRule, Table};

fn shrink_cell(w: i64, h: i64) -> FixedCell {
    FixedCell::shrink(PxSize::new(Px::of(w), Px::of(h)))
}

fn rule() -> ColumnRule {
    ColumnRule { width: Policy::Shrink, align_x: HAlign::Left, align_y: VAlign::Top }
}

fn two_by_two() -> Table<FixedCell> {
    Table {
        columns: vec![rule(), rule()],
        cells: vec![shrink_cell(50, 20); 4],
        width: Policy::Shrink,
        height: Policy::Shrink,
        max_width: Policy::Fixed(Px::of(500)),
        padding_x: Px::of(10),
        padding_y: Px::of(5),
        separator_x: Px::of(1),
        separator_y: Px::of(1),
    }
}

fn halves(units: i128) -> Px {
    Px::of_scaled(units * 65536 + 32768)
}

#[test]
fn metrics_lengths_match_columns_and_rows() {
    let t = two_by_two();
    let r = t.layout(PxSize::new(Px::of(500), Px::of(200)));
    assert_eq!(r.metrics.columns.len(), 2);
    assert_eq!(r.metrics.rows.len(), 2);
    assert_eq!(r.boxes.len(), 4);
}

#[test]
fn even_share_two_columns() {
    // 2 shrink columns, 2 rows, all cells 50x20, padding 10/5, separator 1/1,
    // available 500x200, max width 500. Content space: 500 - 20 - 21 = 459;
    // leftover 459 - 100 = 359; share 179.5; each column 229.5 wide.
    let t = two_by_two();
    let r = t.layout(PxSize::new(Px::of(500), Px::of(200)));
    assert_eq!(r.metrics.columns, vec![halves(229), halves(229)]);
    assert_eq!(r.metrics.rows, vec![Px::of(20), Px::of(20)]);
    assert!(r.metrics.columns.iter().all(|w| w.v >= Px::of(50).v));
    assert!(r.metrics.columns.iter().all(|w| w.v >= 0));
    let total: i128 = r.metrics.columns.iter().map(|w| w.v).sum();
    assert!(total >= Px::of(100).v);
    // 10 + 229.5 + 21 + 229.5 + 10 = 500 wide; 10 + 40 + 11 - 1 = 60 tall.
    assert_eq!(r.size, PxSize::new(Px::of(500), Px::of(60)));
}

#[test]
fn max_width_caps_the_distribution() {
    // A max width tighter than the bounds caps the distributable space:
    // min(500, 300) - 20 - 21 = 259 for content, leftover 159, share 79.5.
    let mut t = two_by_two();
    t.max_width = Policy::Fixed(Px::of(300));
    let r = t.layout(PxSize::new(Px::of(500), Px::of(200)));
    assert_eq!(r.metrics.columns, vec![halves(129), halves(129)]);
    assert_eq!(r.size.width, Px::of(300));
}

#[test]
fn style_carries_two_separator_colors() {
    let gray = gridtable::style::Rgba { r: 128, g: 128, b: 128, a: 255 };
    let red = gridtable::style::Rgba { r: 200, g: 0, b: 0, a: 255 };
    let style = gridtable::style::Style { separator_x: gray, separator_y: red };
    assert_eq!(style.separator_x, gray);
    assert_ne!(style.separator_x, style.separator_y);
}

#[test]
fn layout_is_idempotent() {
    let t = two_by_two();
    let bounds = PxSize::new(Px::of(500), Px::of(200));
    assert_eq!(t.layout(bounds), t.layout(bounds));
}

#[test]
fn columns_never_shrink_below_intrinsic_width() {
    // Available width far below content: the first pass measures under the
    // space left at the cursor (40 after the left padding, none at all for
    // the second column), and no share is left to distribute. The final
    // widths equal those measured intrinsics, never less.
    let t = two_by_two();
    let r = t.layout(PxSize::new(Px::of(50), Px::of(200)));
    assert_eq!(r.metrics.columns, vec![Px::of(40), Px::of(0)]);
    // The grid overflows its bounds by design; resolving shrinks the
    // reported size to the bound, never the columns.
    assert_eq!(r.size.width, Px::of(50));
}

#[test]
fn fill_factor_row_heights() {
    // 1 column, 3 rows; the middle row's cell has fill factor 2, the others
    // are intrinsically 20 tall. available height 100, padding_y 5,
    // separator_y 1: height unit = (100 - 0 - 11*2 - 10) / 2 = 34, so the
    // fluid row is 68 tall.
    let t = Table {
        columns: vec![rule()],
        cells: vec![
            shrink_cell(50, 20),
            FixedCell::new(PxSize::new(Px::of(50), Px::of(0)), Policy::Shrink, Policy::Fill(2)),
            shrink_cell(50, 20),
        ],
        width: Policy::Shrink,
        height: Policy::Shrink,
        max_width: Policy::Fill(1),
        padding_x: Px::of(0),
        padding_y: Px::of(5),
        separator_x: Px::of(0),
        separator_y: Px::of(1),
    };
    let r = t.layout(PxSize::new(Px::of(100), Px::of(100)));
    assert_eq!(r.metrics.rows, vec![Px::of(20), Px::of(68), Px::of(20)]);
    assert_eq!(r.metrics.columns, vec![Px::of(100)]);
}

#[test]
fn fluid_row_takes_max_factor() {
    // One row with fill factors 1 and 2: the row counts with its largest
    // factor, so the height unit is 90 / 2 = 45 and the row is 90 tall.
    let t = Table {
        columns: vec![rule(), rule()],
        cells: vec![
            FixedCell::new(PxSize::new(Px::of(10), Px::of(0)), Policy::Shrink, Policy::Fill(1)),
            FixedCell::new(PxSize::new(Px::of(10), Px::of(0)), Policy::Shrink, Policy::Fill(2)),
        ],
        width: Policy::Shrink,
        height: Policy::Shrink,
        max_width: Policy::Fill(1),
        padding_x: Px::of(0),
        padding_y: Px::of(0),
        separator_x: Px::of(0),
        separator_y: Px::of(0),
    };
    let r = t.layout(PxSize::new(Px::of(100), Px::of(90)));
    assert_eq!(r.metrics.rows, vec![Px::of(90)]);
}

#[test]
fn negative_height_unit_degrades_to_zero() {
    // Over-constrained: available height 10 cannot cover gaps and padding,
    // so the height unit goes negative; the fluid row clamps to zero height
    // instead of panicking.
    let t = Table {
        columns: vec![rule()],
        cells: vec![
            shrink_cell(50, 20),
            FixedCell::new(PxSize::new(Px::of(50), Px::of(0)), Policy::Shrink, Policy::Fill(1)),
        ],
        width: Policy::Shrink,
        height: Policy::Shrink,
        max_width: Policy::Fill(1),
        padding_x: Px::of(0),
        padding_y: Px::of(5),
        separator_x: Px::of(0),
        separator_y: Px::of(1),
    };
    let r = t.layout(PxSize::new(Px::of(100), Px::of(10)));
    // The first row is itself clamped by the 5 units left under the top
    // padding; the fluid row gets the negative unit and clamps to zero.
    assert_eq!(r.metrics.rows, vec![Px::of(5), Px::of(0)]);
}

#[test]
fn zero_columns_make_a_zero_grid() {
    let t: Table<FixedCell> = Table {
        columns: vec![],
        cells: vec![],
        width: Policy::Shrink,
        height: Policy::Shrink,
        max_width: Policy::Fill(1),
        padding_x: Px::of(10),
        padding_y: Px::of(5),
        separator_x: Px::of(1),
        separator_y: Px::of(1),
    };
    let r = t.layout(PxSize::new(Px::of(500), Px::of(200)));
    assert!(r.metrics.columns.is_empty());
    assert!(r.metrics.rows.is_empty());
    assert!(r.boxes.is_empty());
    assert_eq!(r.size, PxSize::new(Px::of(0), Px::of(0)));
}

#[test]
fn separator_counts_match_interior_boundaries() {
    // 3 columns, 2 rows: exactly 2 vertical and 1 horizontal separator.
    let t = Table {
        columns: vec![rule(), rule(), rule()],
        cells: vec![shrink_cell(30, 10); 6],
        width: Policy::Shrink,
        height: Policy::Shrink,
        max_width: Policy::Fill(1),
        padding_x: Px::of(10),
        padding_y: Px::of(5),
        separator_x: Px::of(1),
        separator_y: Px::of(1),
    };
    let r = t.layout(PxSize::new(Px::of(400), Px::of(200)));
    let v = t.vertical_separators(&r.metrics, r.size);
    let h = t.horizontal_separators(&r.metrics, r.size);
    assert_eq!(v.len(), 2);
    assert_eq!(h.len(), 1);
}

#[test]
fn no_separators_for_a_single_column_or_row() {
    let t = Table {
        columns: vec![rule()],
        cells: vec![shrink_cell(30, 10)],
        width: Policy::Shrink,
        height: Policy::Shrink,
        max_width: Policy::Fill(1),
        padding_x: Px::of(10),
        padding_y: Px::of(5),
        separator_x: Px::of(1),
        separator_y: Px::of(1),
    };
    let r = t.layout(PxSize::new(Px::of(400), Px::of(200)));
    assert!(t.vertical_separators(&r.metrics, r.size).is_empty());
    assert!(t.horizontal_separators(&r.metrics, r.size).is_empty());
}

#[test]
fn no_separators_when_thickness_is_zero() {
    let mut t = two_by_two();
    t.separator_x = Px::of(0);
    t.separator_y = Px::of(0);
    let r = t.layout(PxSize::new(Px::of(500), Px::of(200)));
    assert!(t.vertical_separators(&r.metrics, r.size).is_empty());
    assert!(t.horizontal_separators(&r.metrics, r.size).is_empty());
}

#[test]
fn separator_positions() {
    // Columns 229.5 wide with padding 10: the first vertical separator
    // stands at 10 + 229.5 + 10 = 249.5, spanning the grid's height.
    let t = two_by_two();
    let r = t.layout(PxSize::new(Px::of(500), Px::of(200)));
    let v = t.vertical_separators(&r.metrics, r.size);
    assert_eq!(v[0].x, halves(249));
    assert_eq!(v[0].y, Px::of(0));
    assert_eq!(v[0].width, Px::of(1));
    assert_eq!(v[0].height, r.size.height);
    let h = t.horizontal_separators(&r.metrics, r.size);
    // 5 + 20 + 5 = 30.
    assert_eq!(h[0].y, Px::of(30));
    assert_eq!(h[0].width, r.size.width);
}

#[test]
fn cells_align_within_their_boxes() {
    let centered = ColumnRule { width: Policy::Shrink, align_x: HAlign::Center, align_y: VAlign::Top };
    let t = Table {
        columns: vec![centered],
        cells: vec![shrink_cell(50, 20)],
        width: Policy::Shrink,
        height: Policy::Shrink,
        max_width: Policy::Fill(1),
        padding_x: Px::of(0),
        padding_y: Px::of(0),
        separator_x: Px::of(0),
        separator_y: Px::of(0),
    };
    // Column width becomes 100 (50 intrinsic + 50 share); the 50-wide cell
    // is centered at x = 25.
    let r = t.layout(PxSize::new(Px::of(100), Px::of(100)));
    assert_eq!(r.metrics.columns, vec![Px::of(100)]);
    assert_eq!(r.boxes[0].x, Px::of(25));
    assert_eq!(r.boxes[0].width, Px::of(50));
}

#[test]
fn cell_boxes_follow_the_grid_cursor() {
    // Cells keep their measured 50x20 content size and sit at the top left
    // of their boxes: the second column starts after the first column's
    // 229.5 width and the 21-wide gap, the second row after the first row's
    // 20 height and the 11-tall gap.
    let t = two_by_two();
    let r = t.layout(PxSize::new(Px::of(500), Px::of(200)));
    let xs: Vec<Px> = r.boxes.iter().map(|b| b.x).collect();
    let ys: Vec<Px> = r.boxes.iter().map(|b| b.y).collect();
    assert_eq!(xs, vec![Px::of(10), halves(260), Px::of(10), halves(260)]);
    assert_eq!(ys, vec![Px::of(5), Px::of(5), Px::of(36), Px::of(36)]);
    assert!(r.boxes.iter().all(|b| b.width == Px::of(50) && b.height == Px::of(20)));
}

#[test]
fn px_arithmetic_is_exact_and_saturating() {
    assert_eq!(Px::of(3).add(Px::of(4)), Px::of(7));
    assert_eq!(Px::of(3).sub(Px::of(4)), Px::of(-1));
    assert_eq!(Px::of(-1).max0(), Px::of(0));
    assert_eq!(Px::of(7).div_count(2), halves(3));
    // Truncation toward zero at subunit granularity.
    assert_eq!(Px::of_scaled(-3).div_count(2), Px::of_scaled(-1));
    // Saturation at the representation limit.
    assert_eq!(Px::of_scaled(LIM).mul_count(2), Px::of_scaled(LIM));
    assert_eq!(Px::of_scaled(LIM).add(Px::of_scaled(LIM)), Px::of_scaled(LIM));
    assert_eq!(Px::of_scaled(-LIM).sub(Px::of_scaled(LIM)), Px::of_scaled(-LIM));
}
