use tabled::config::{Alignment, HAlign};
use tabled::entity::Entity;
use tabled::records::{GridError, Records};
use tabled::settings::Span;
use tabled::style::Style;
use tabled::table::{Setting, Table};

fn rows(data: &[&[&str]]) -> Records {
    let cells: Vec<Vec<String>> = data
        .iter()
        .map(|row| row.iter().map(|s| s.to_string()).collect())
        .collect();
    Records::new(cells).unwrap()
}

fn numbered_3x3() -> Table {
    rows_table(&[
        &["N", "column 0", "column 1", "column 2"],
        &["0", "0-0", "0-1", "0-2"],
        &["1", "1-0", "1-1", "1-2"],
        &["2", "2-0", "2-1", "2-2"],
    ])
}

fn rows_table(data: &[&[&str]]) -> Table {
    Table::new(rows(data))
}

#[test]
fn ascii_3x3_renders() {
    let t = rows_table(&[&["a", "b", "c"], &["d", "e", "f"], &["g", "h", "i"]]);
    let out = t.render().unwrap();
    assert_eq!(
        out,
        [
            "+---+---+---+",
            "| a | b | c |",
            "+---+---+---+",
            "| d | e | f |",
            "+---+---+---+",
            "| g | h | i |",
            "+---+---+---+",
        ]
        .join("\n")
    );
}

#[test]
fn rendered_block_dimensions_full_style() {
    // With no spans and the full ascii style the width is the column
    // widths plus one border character per boundary, and the height is
    // one content line per row plus one border line per boundary.
    let t = rows_table(&[&["a", "b", "c"], &["d", "e", "f"], &["g", "h", "i"]]);
    let out = t.render().unwrap();
    let lines: Vec<&str> = out.split('\n').collect();
    assert_eq!(lines.len(), 3 * 2 + 1);
    for line in &lines {
        assert_eq!(line.chars().count(), 3 * 3 + 4);
    }
}

#[test]
fn rerender_is_byte_identical() {
    let mut t = numbered_3x3();
    t.insert_panel(0, "Linux Distributions".to_string());
    let mut style = t;
    style.with_style(Style::psql());
    let first = style.render().unwrap();
    let second = style.render().unwrap();
    assert_eq!(first, second);
}

#[test]
fn panel_renders_centered_with_psql_separator() {
    let mut t = numbered_3x3();
    t.insert_panel(0, "Linux Distributions".to_string());
    t.apply(
        &Setting::Align(Alignment::Horizontal(HAlign::Center)),
        Entity::Rows(1, 5),
    );
    t.with_style(Style::psql());
    let out = t.render().unwrap();
    assert_eq!(
        out,
        [
            "        Linux Distributions         ",
            "---+----------+----------+----------",
            " N | column 0 | column 1 | column 2 ",
            " 0 |   0-0    |   0-1    |   0-2    ",
            " 1 |   1-0    |   1-1    |   1-2    ",
            " 2 |   2-0    |   2-1    |   2-2    ",
        ]
        .join("\n")
    );
}

#[test]
fn bottom_panel_renders_after_rows() {
    let mut t = numbered_3x3();
    t.insert_panel(4, "Linux Distributions".to_string());
    t.apply(
        &Setting::Align(Alignment::Horizontal(HAlign::Center)),
        Entity::Rows(0, 4),
    );
    t.with_style(Style::psql());
    let out = t.render().unwrap();
    assert_eq!(
        out,
        [
            " N | column 0 | column 1 | column 2 ",
            "---+----------+----------+----------",
            " 0 |   0-0    |   0-1    |   0-2    ",
            " 1 |   1-0    |   1-1    |   1-2    ",
            " 2 |   2-0    |   2-1    |   2-2    ",
            "        Linux Distributions         ",
        ]
        .join("\n")
    );
}

#[test]
fn span_without_normalization_keeps_dangling_intersection() {
    let mut t = rows_table(&[&["a", "b", "c"], &["d", "e", "f"]]);
    t.apply(&Setting::Span(Span::column(2)), Entity::Cell(0, 0));
    let out = t.render().unwrap();
    assert_eq!(
        out,
        [
            "+---+---+---+",
            "| a     | c |",
            "+---+---+---+",
            "| d | e | f |",
            "+---+---+---+",
        ]
        .join("\n")
    );
}

#[test]
fn span_normalization_unifies_top_intersection() {
    // The same layout with the "correct spans" normalization: the top
    // intersection above the span becomes a plain horizontal.
    let mut t = rows_table(&[&["a", "b", "c"], &["d", "e", "f"]]);
    t.apply(&Setting::Span(Span::column(2)), Entity::Cell(0, 0));
    t.correct_spans(true);
    let out = t.render().unwrap();
    assert_eq!(
        out,
        [
            "+-------+---+",
            "| a     | c |",
            "+---+---+---+",
            "| d | e | f |",
            "+---+---+---+",
        ]
        .join("\n")
    );
}

#[test]
fn adjacent_spans_normalize_to_shared_intersection() {
    let mut t = rows_table(&[&["a", "b", "c", "d"], &["e", "f", "g", "h"]]);
    t.apply(&Setting::Span(Span::column(2)), Entity::Cell(0, 0));
    t.apply(&Setting::Span(Span::column(2)), Entity::Cell(0, 2));
    t.correct_spans(true);
    let out = t.render().unwrap();
    assert_eq!(
        out,
        [
            "+-------+-------+",
            "| a     | c     |",
            "+---+---+---+---+",
            "| e | f | g | h |",
            "+---+---+---+---+",
        ]
        .join("\n")
    );
}

#[test]
fn oversized_span_clamps_to_remaining_columns() {
    // A span far larger than the table clamps to the remaining column
    // count; the render goes through and stays rectangular.
    let mut t = rows_table(&[&["a", "b", "c"], &["d", "e", "f"]]);
    t.apply(&Setting::Span(Span::column(100)), Entity::Cell(0, 1));
    let out = t.render().unwrap();
    assert_eq!(
        out,
        [
            "+---+---+---+",
            "| a | b     |",
            "+---+---+---+",
            "| d | e | f |",
            "+---+---+---+",
        ]
        .join("\n")
    );
}

#[test]
fn wide_span_content_widens_rightmost_member_column() {
    let mut t = rows_table(&[&["a wide heading", "b", "c"], &["d", "e", "f"]]);
    t.apply(&Setting::Span(Span::column(2)), Entity::Cell(0, 0));
    let out = t.render().unwrap();
    assert_eq!(
        out,
        [
            "+---+------------+---+",
            "| a wide heading | c |",
            "+---+------------+---+",
            "| d | e          | f |",
            "+---+------------+---+",
        ]
        .join("\n")
    );
}

#[test]
fn span_roundtrip_restores_configuration() {
    let mut touched = rows_table(&[&["a", "b", "c"], &["d", "e", "f"]]);
    let untouched = touched.clone();
    touched.apply(&Setting::Span(Span::column(3)), Entity::Cell(0, 0));
    touched.apply(&Setting::Span(Span::column(1)), Entity::Cell(0, 0));
    assert_eq!(touched.cfg, untouched.cfg);
    assert_eq!(
        touched.render().unwrap(),
        untouched.render().unwrap()
    );
}

#[test]
fn mismatched_geometry_is_reported() {
    let rec = rows(&[&["a", "b"], &["c", "d"]]);
    let cfg = tabled::config::GridConfig::new(3, 2, Style::ascii());
    let res = tabled::render::render_grid(&cfg, &rec);
    assert_eq!(res, Err(GridError::InconsistentGeometry));
}

#[test]
fn ragged_rows_are_rejected() {
    let cells = vec![
        vec!["a".to_string(), "b".to_string()],
        vec!["c".to_string()],
    ];
    assert_eq!(Records::new(cells), Err(GridError::InconsistentGeometry));
}

#[test]
fn oversized_padding_is_reported_as_too_large() {
    let mut t = rows_table(&[&["a", "b"], &["c", "d"]]);
    t.apply(
        &Setting::Pad(tabled::config::Padding::new(0, 0, usize::MAX, usize::MAX)),
        Entity::Global,
    );
    assert_eq!(t.render(), Err(GridError::TooLarge));
}

#[test]
fn explicit_width_pads_a_narrow_column() {
    let mut t = rows_table(&[&["a", "b"], &["c", "d"]]);
    t.set_column_width(0, Some(7));
    let out = t.render().unwrap();
    assert_eq!(
        out,
        [
            "+-------+---+",
            "| a     | b |",
            "+-------+---+",
            "| c     | d |",
            "+-------+---+",
        ]
        .join("\n")
    );
}

#[test]
fn explicit_width_truncates_wide_content() {
    let mut t = rows_table(&[&["abcdef", "b"], &["c", "d"]]);
    t.set_column_width(0, Some(4));
    let out = t.render().unwrap();
    assert_eq!(
        out,
        [
            "+----+---+",
            "| abc| b |",
            "+----+---+",
            "| c  | d |",
            "+----+---+",
        ]
        .join("\n")
    );
}

#[test]
fn clearing_an_explicit_width_restores_the_natural_width() {
    let mut t = rows_table(&[&["a", "b"], &["c", "d"]]);
    let natural = t.render().unwrap();
    t.set_column_width(0, Some(7));
    t.set_column_width(0, None);
    assert_eq!(t.render().unwrap(), natural);
}

#[test]
fn explicit_height_adds_lines_to_a_row() {
    let mut t = rows_table(&[&["a", "b"], &["c", "d"]]);
    t.set_row_height(0, Some(3));
    let out = t.render().unwrap();
    assert_eq!(
        out,
        [
            "+---+---+",
            "| a | b |",
            "|   |   |",
            "|   |   |",
            "+---+---+",
            "| c | d |",
            "+---+---+",
        ]
        .join("\n")
    );
}

#[test]
fn explicit_zero_height_collapses_a_row() {
    let mut t = rows_table(&[&["a", "b"], &["c", "d"]]);
    t.set_row_height(0, Some(0));
    let out = t.render().unwrap();
    assert_eq!(
        out,
        ["+---+---+", "+---+---+", "| c | d |", "+---+---+"].join("\n")
    );
}
