use tabled::border::GridBorder;
use tabled::config::{Alignment, HAlign, Padding, VAlign};
use tabled::entity::Entity;
use tabled::records::Records;
use tabled::settings::{Border, EmptyBorder, Span};
use tabled::style::Style;
use tabled::table::{Setting, Table};

fn small_table() -> Table {
    let cells = vec![
        vec!["a".to_string(), "b".to_string()],
        vec!["c".to_string(), "d".to_string()],
    ];
    Table::new(Records::new(cells).unwrap())
}

#[test]
fn border_builder_sets_and_gets_sides() {
    let b = Border::new()
        .set_top('-')
        .set_bottom('_')
        .set_left('[')
        .set_right(']');
    assert_eq!(b.get_top(), '-');
    assert_eq!(b.get_bottom(), '_');
    assert_eq!(b.get_left(), '[');
    assert_eq!(b.get_right(), ']');
    let inner = b.into_inner();
    assert_eq!(inner.top, Some('-'));
    assert_eq!(inner.bottom, Some('_'));
    assert_eq!(inner.left, Some('['));
    assert_eq!(inner.right, Some(']'));
    assert_eq!(inner.left_top_corner, None);
}

#[test]
fn border_builder_sets_and_gets_corners() {
    let b = Border::full('-', '-', '|', '|', '1', '2', '3', '4')
        .set_corner_top_left('/')
        .set_corner_top_right('\\')
        .set_corner_bottom_left('\\')
        .set_corner_bottom_right('/');
    assert_eq!(b.get_corner_top_left(), '/');
    assert_eq!(b.get_corner_top_right(), '\\');
    assert_eq!(b.get_corner_bottom_left(), '\\');
    assert_eq!(b.get_corner_bottom_right(), '/');
}

#[test]
fn border_filled_sets_every_character() {
    let b = Border::filled('#');
    let inner = b.into_inner();
    assert_eq!(inner, GridBorder::full('#', '#', '#', '#', '#', '#', '#', '#'));
}

#[test]
fn border_from_border_round_trips() {
    let g = GridBorder::full('a', 'b', 'c', 'd', 'e', 'f', 'g', 'h');
    assert_eq!(Border::from_border(g).into_inner(), g);
}

#[test]
fn span_column_holds_size() {
    let s = Span::column(7);
    assert_eq!(s.size, 7);
}

#[test]
fn get_char_unwraps_a_set_side() {
    assert_eq!(tabled::settings::get_char(Some('x')), 'x');
}

#[test]
fn cell_border_override_draws_in_render() {
    let mut t = small_table();
    t.with_style(Style::blank());
    let b = Border::new().set_top('*');
    b.change(&mut t, Entity::Cell(0, 0));
    let out = t.render().unwrap();
    assert_eq!(out, ["***   ", " a  b ", " c  d "].join("\n"));
}

#[test]
fn empty_border_reverts_to_style_default() {
    let mut t = small_table();
    let marked = GridBorder::full('#', '#', '#', '#', '#', '#', '#', '#');
    marked.change(&mut t, Entity::Cell(0, 0));
    let e = Border::empty();
    assert_eq!(e, EmptyBorder);
    e.change(&mut t, Entity::Cell(0, 0));
    let out = t.render().unwrap();
    assert_eq!(
        out,
        [
            "+---+---+",
            "| a | b |",
            "+---+---+",
            "| c | d |",
            "+---+---+",
        ]
        .join("\n")
    );
}

#[test]
fn highlight_draws_only_the_selection_perimeter() {
    let cells = vec![
        vec!["a".to_string(), "b".to_string(), "c".to_string()],
        vec!["d".to_string(), "e".to_string(), "f".to_string()],
        vec!["g".to_string(), "h".to_string(), "i".to_string()],
    ];
    let mut t = Table::new(Records::new(cells).unwrap());
    t.highlight(Entity::Row(0), GridBorder::full('#', '#', '#', '#', '#', '#', '#', '#'));
    let out = t.render().unwrap();
    assert_eq!(
        out,
        [
            "#############",
            "# a | b | c #",
            "#############",
            "| d | e | f |",
            "+---+---+---+",
            "| g | h | i |",
            "+---+---+---+",
        ]
        .join("\n")
    );
}

#[test]
fn padding_widens_a_cell() {
    let mut t = small_table();
    t.apply(&Setting::Pad(Padding::new(0, 0, 3, 1)), Entity::Column(0));
    let out = t.render().unwrap();
    assert_eq!(
        out,
        [
            "+-----+---+",
            "|   a | b |",
            "+-----+---+",
            "|   c | d |",
            "+-----+---+",
        ]
        .join("\n")
    );
}

#[test]
fn vertical_padding_and_alignment_position_content() {
    let mut t = small_table();
    t.apply(&Setting::Pad(Padding::new(1, 1, 1, 1)), Entity::Cell(0, 0));
    t.apply(
        &Setting::Align(Alignment::Vertical(VAlign::Bottom)),
        Entity::Cell(0, 1),
    );
    let out = t.render().unwrap();
    assert_eq!(
        out,
        [
            "+---+---+",
            "|   |   |",
            "| a |   |",
            "|   | b |",
            "+---+---+",
            "| c | d |",
            "+---+---+",
        ]
        .join("\n")
    );
}

#[test]
fn alignment_right_pushes_content() {
    let cells = vec![vec!["a".to_string(), "long".to_string()], vec![
        "also long".to_string(),
        "b".to_string(),
    ]];
    let mut t = Table::new(Records::new(cells).unwrap());
    t.apply(&Setting::Align(Alignment::Horizontal(HAlign::Right)), Entity::Global);
    let out = t.render().unwrap();
    assert_eq!(
        out,
        [
            "+-----------+------+",
            "|         a | long |",
            "+-----------+------+",
            "| also long |    b |",
            "+-----------+------+",
        ]
        .join("\n")
    );
}

#[test]
fn entity_resolution_targets_exactly_the_selection() {
    let ps = Entity::Row(1).resolve(3, 2);
    assert_eq!(ps, vec![(1, 0), (1, 1)]);
    let ps = Entity::Column(0).resolve(2, 2);
    assert_eq!(ps, vec![(0, 0), (1, 0)]);
    let ps = Entity::Cell(5, 0).resolve(3, 2);
    assert_eq!(ps, vec![]);
    let ps = Entity::Columns(1, 2).resolve(2, 3);
    assert_eq!(ps, vec![(0, 1), (1, 1)]);
    let ps = Entity::Global.resolve(2, 2);
    assert_eq!(ps, vec![(0, 0), (0, 1), (1, 0), (1, 1)]);
}

#[test]
fn union_selector_targets_both_regions() {
    let e = Entity::Row(0).and(Entity::Column(1));
    let ps = e.resolve(2, 3);
    assert_eq!(ps, vec![(0, 0), (0, 1), (0, 2), (1, 1)]);
}
