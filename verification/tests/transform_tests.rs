use tabled::records::Records;
use tabled::table::Table;
use tabled::transform::{line_text, shadow};

fn two_by_two() -> String {
    let cells = vec![
        vec!["a".to_string(), "b".to_string()],
        vec!["c".to_string(), "d".to_string()],
    ];
    Table::new(Records::new(cells).unwrap()).render().unwrap()
}

#[test]
fn line_text_labels_a_border_line() {
    let out = two_by_two();
    let labelled = line_text(&out, 9, 0, 1, "Label");
    assert_eq!(
        labelled,
        [
            "+Label--+",
            "| a | b |",
            "+---+---+",
            "| c | d |",
            "+---+---+",
        ]
        .join("\n")
    );
}

#[test]
fn line_text_clips_at_the_line_end() {
    let out = two_by_two();
    let labelled = line_text(&out, 9, 2, 7, "XYZ");
    assert_eq!(
        labelled,
        [
            "+---+---+",
            "| a | b |",
            "+---+--XY",
            "| c | d |",
            "+---+---+",
        ]
        .join("\n")
    );
}

#[test]
fn line_text_on_an_inner_line() {
    let out = two_by_two();
    let labelled = line_text(&out, 9, 1, 0, "[");
    assert_eq!(
        labelled,
        [
            "+---+---+",
            "[ a | b |",
            "+---+---+",
            "| c | d |",
            "+---+---+",
        ]
        .join("\n")
    );
}

#[test]
fn shadow_frames_right_and_below() {
    let out = two_by_two();
    let shadowed = shadow(&out, 9, 5, 2, '#');
    assert_eq!(
        shadowed,
        [
            "+---+---+  ",
            "| a | b |##",
            "+---+---+##",
            "| c | d |##",
            "+---+---+##",
            " ##########",
            " ##########",
        ]
        .join("\n")
    );
}
