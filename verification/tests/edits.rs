use abap_lsp::edits::{
    position_to_byte_offset, position_to_char_index, position_to_point, Point, Position,
};
use ropey::Rope;

fn at(line: u32, character: u32) -> Position {
    Position { line, character }
}

#[test]
fn column_after_a_three_byte_character() {
    let rope = Rope::from_str("a\u{20AC}b");
    assert_eq!(position_to_char_index(&rope, &at(0, 2)), Some(2));
    assert_eq!(position_to_byte_offset(&rope, &at(0, 2)), Some(4));
}

#[test]
fn columns_of_a_line_with_a_three_byte_character() {
    let rope = Rope::from_str("a\u{20AC}b");
    assert_eq!(position_to_char_index(&rope, &at(0, 0)), Some(0));
    assert_eq!(position_to_byte_offset(&rope, &at(0, 0)), Some(0));
    assert_eq!(position_to_char_index(&rope, &at(0, 1)), Some(1));
    assert_eq!(position_to_byte_offset(&rope, &at(0, 1)), Some(1));
    assert_eq!(position_to_char_index(&rope, &at(0, 3)), Some(3));
    assert_eq!(position_to_byte_offset(&rope, &at(0, 3)), Some(5));
}

#[test]
fn column_inside_a_surrogate_pair_names_nothing() {
    // U+1F600 takes two UTF-16 code units and four bytes.
    let rope = Rope::from_str("a\u{1F600}b");
    assert_eq!(position_to_char_index(&rope, &at(0, 1)), Some(1));
    assert_eq!(position_to_char_index(&rope, &at(0, 2)), None);
    assert_eq!(position_to_byte_offset(&rope, &at(0, 2)), None);
    assert_eq!(position_to_char_index(&rope, &at(0, 3)), Some(2));
    assert_eq!(position_to_byte_offset(&rope, &at(0, 3)), Some(5));
    assert_eq!(position_to_char_index(&rope, &at(0, 4)), Some(3));
}

#[test]
fn line_outside_the_text_names_nothing() {
    let rope = Rope::from_str("one\ntwo");
    assert_eq!(position_to_char_index(&rope, &at(2, 0)), None);
    assert_eq!(position_to_char_index(&rope, &at(7, 0)), None);
    assert_eq!(position_to_byte_offset(&rope, &at(2, 0)), None);
}

#[test]
fn column_beyond_the_line_names_nothing() {
    let rope = Rope::from_str("one\ntwo");
    // The first line holds its line break.
    assert_eq!(position_to_char_index(&rope, &at(0, 4)), Some(4));
    assert_eq!(position_to_char_index(&rope, &at(0, 5)), None);
    assert_eq!(position_to_char_index(&rope, &at(1, 3)), Some(7));
    assert_eq!(position_to_char_index(&rope, &at(1, 4)), None);
}

#[test]
fn positions_on_later_lines() {
    let rope = Rope::from_str("\u{E4}b\nc\u{20AC}d\n");
    assert_eq!(position_to_char_index(&rope, &at(1, 0)), Some(3));
    assert_eq!(position_to_byte_offset(&rope, &at(1, 0)), Some(4));
    assert_eq!(position_to_char_index(&rope, &at(1, 2)), Some(5));
    assert_eq!(position_to_byte_offset(&rope, &at(1, 2)), Some(8));
    // The line behind the last line break is empty.
    assert_eq!(position_to_char_index(&rope, &at(2, 0)), Some(7));
    assert_eq!(position_to_char_index(&rope, &at(2, 1)), None);
    assert_eq!(position_to_char_index(&rope, &at(3, 0)), None);
}

#[test]
fn empty_text_has_one_empty_line() {
    let rope = Rope::from_str("");
    assert_eq!(position_to_char_index(&rope, &at(0, 0)), Some(0));
    assert_eq!(position_to_byte_offset(&rope, &at(0, 0)), Some(0));
    assert_eq!(position_to_char_index(&rope, &at(0, 1)), None);
    assert_eq!(position_to_char_index(&rope, &at(1, 0)), None);
}

#[test]
fn carriage_return_and_line_feed_are_one_break() {
    let rope = Rope::from_str("ab\r\ncd");
    assert_eq!(position_to_char_index(&rope, &at(0, 4)), Some(4));
    assert_eq!(position_to_char_index(&rope, &at(1, 0)), Some(4));
    assert_eq!(position_to_char_index(&rope, &at(1, 2)), Some(6));
    assert_eq!(position_to_char_index(&rope, &at(2, 0)), None);
}

#[test]
fn point_of_a_position() {
    assert_eq!(position_to_point(&at(3, 9)), Point { row: 3, column: 9 });
    assert_eq!(position_to_point(&at(0, 0)), Point { row: 0, column: 0 });
}
