//! Positions as the editor names them, and where they lie in a buffer.

use ropey::Rope;
use vstd::prelude::*;
use crate::buffer::{
    lemma_utf16_len_prefix,
    line_count,
    line_start,
    rope_char_to_byte,
    rope_char_to_utf16_cu,
    rope_len_lines,
    rope_line_to_char,
    rope_text,
    rope_utf16_cu_to_char,
    utf16_len,
    utf8_len,
};

verus! {

/// A position in a text as the editor names it: a line, and in the line a
/// count of UTF-16 code units.
#[derive(Copy, Clone, Debug, PartialEq, Eq, Structural)]
pub struct Position {
    pub line: u32,
    pub character: u32,
}

/// A position as the syntax tree takes it.
#[derive(Copy, Clone, Debug, PartialEq, Eq, Structural)]
pub struct Point {
    pub row: usize,
    pub column: usize,
}

/// Whether the position names the character index `index` of the text: the
/// line is one of the text, the index lies in the line or directly behind
/// it, and the characters of the line before the index take exactly as many
/// UTF-16 code units as the position counts.
pub open spec fn resolves_to(text: Seq<char>, position: Position, index: nat) -> bool {
    let line = position.line as nat;
    &&& line < line_count(text)
    &&& line_start(text, line) <= index <= line_start(text, line + 1)
    &&& index <= text.len()
    &&& utf16_len(text.subrange(line_start(text, line) as int, index as int))
        == position.character
}

/// The character index that the position names, if it names one. A line
/// outside the text names none, nor does a count beyond the line's length or
/// one that ends between the two code units of one character.
pub open spec fn char_index_of(text: Seq<char>, position: Position) -> Option<nat> {
    if exists|index: nat| resolves_to(text, position, index) {
        Some(choose|index: nat| resolves_to(text, position, index))
    } else {
        None
    }
}

/// A position names at most one character index.
pub proof fn lemma_resolution_unique(text: Seq<char>, position: Position, i: nat, j: nat)
    requires
        resolves_to(text, position, i),
        resolves_to(text, position, j),
    ensures
        i == j,
{
    let start = line_start(text, position.line as nat) as int;
    lemma_utf16_len_prefix(text, start, i as int);
    lemma_utf16_len_prefix(text, start, j as int);
    if i < j {
        lemma_utf16_len_prefix(text, i as int, j as int);
    } else if j < i {
        lemma_utf16_len_prefix(text, j as int, i as int);
    }
}

/// A position names the index that it resolves to.
pub proof fn lemma_position_names(text: Seq<char>, position: Position, index: nat)
    requires
        resolves_to(text, position, index),
    ensures
        char_index_of(text, position) == Some(index),
{
    let chosen = choose|i: nat| resolves_to(text, position, i);
    lemma_resolution_unique(text, position, chosen, index);
}

/// A position whose count ends inside a character names no index: such is
/// a count that lies between the code units before a character of two code
/// units and those up to its end.
pub proof fn lemma_position_inside_character(text: Seq<char>, position: Position, index: nat)
    requires
        line_start(text, position.line as nat) <= index < text.len(),
        utf16_len(text.subrange(line_start(text, position.line as nat) as int, index as int))
            < position.character,
        position.character < utf16_len(
            text.subrange(line_start(text, position.line as nat) as int, index as int + 1),
        ),
    ensures
        char_index_of(text, position) is None,
{
    let start = line_start(text, position.line as nat) as int;
    lemma_utf16_len_prefix(text, start, index as int);
    lemma_utf16_len_prefix(text, start, index as int + 1);
    assert forall|i: nat| !resolves_to(text, position, i) by {
        if resolves_to(text, position, i) {
            lemma_utf16_len_prefix(text, start, i as int);
            if i <= index {
                lemma_utf16_len_prefix(text, i as int, index as int);
            } else {
                lemma_utf16_len_prefix(text, index as int + 1, i as int);
            }
        }
    }
}

/// The character index that the position names in the rope's text.
pub fn position_to_char_index(rope: &Rope, position: &Position) -> (index: Option<usize>)
    ensures
        match index {
            Some(i) => char_index_of(rope_text(*rope), *position) == Some(i as nat),
            None => char_index_of(rope_text(*rope), *position) is None,
        },
{
    let ghost text = rope_text(*rope);
    let line = position.line as usize;
    let column = position.character as usize;
    if line >= rope_len_lines(rope) {
        return None;
    }
    let start = rope_line_to_char(rope, line);
    let end = rope_line_to_char(rope, line + 1);
    assert(line_start(text, line as nat) <= end);
    let start_unit = rope_char_to_utf16_cu(rope, start);
    let end_unit = rope_char_to_utf16_cu(rope, end);
    proof {
        lemma_utf16_len_prefix(text, start as int, end as int);
        lemma_utf16_len_prefix(text, end as int, text.len() as int);
        assert(text.take(text.len() as int) =~= text);
    }
    if column > end_unit - start_unit {
        proof {
            assert forall|i: nat| !resolves_to(text, *position, i) by {
                if resolves_to(text, *position, i) {
                    lemma_utf16_len_prefix(text, start as int, i as int);
                    lemma_utf16_len_prefix(text, i as int, end as int);
                }
            }
        }
        return None;
    }
    let unit = start_unit + column;
    let index = rope_utf16_cu_to_char(rope, unit);
    let reached = rope_char_to_utf16_cu(rope, index);
    if reached != unit {
        proof {
            assert forall|i: nat| !resolves_to(text, *position, i) by {
                if resolves_to(text, *position, i) {
                    lemma_utf16_len_prefix(text, start as int, i as int);
                    if index < i {
                        lemma_utf16_len_prefix(text, index + 1, i as int);
                    } else {
                        lemma_utf16_len_prefix(text, i as int, index as int);
                    }
                }
            }
        }
        return None;
    }
    proof {
        if index < start {
            lemma_utf16_len_prefix(text, index as int, start as int);
        } else {
            lemma_utf16_len_prefix(text, start as int, index as int);
        }
        if end < index {
            lemma_utf16_len_prefix(text, end as int, index as int);
        }
        assert(resolves_to(text, *position, index as nat));
        let chosen = choose|i: nat| resolves_to(text, *position, i);
        lemma_resolution_unique(text, *position, chosen, index as nat);
    }
    Some(index)
}

/// The number of bytes before the character that the position names in the
/// rope's text.
pub fn position_to_byte_offset(rope: &Rope, position: &Position) -> (offset: Option<usize>)
    ensures
        match offset {
            Some(b) => char_index_of(rope_text(*rope), *position) matches Some(i) && b == utf8_len(
                rope_text(*rope).take(i as int),
            ),
            None => char_index_of(rope_text(*rope), *position) is None,
        },
{
    match position_to_char_index(rope, position) {
        Some(index) => Some(rope_char_to_byte(rope, index)),
        None => None,
    }
}

/// The position as the syntax tree takes it: the line as row, the count in
/// the line as column.
pub fn position_to_point(position: &Position) -> (point: Point)
    ensures
        point.row == position.line,
        point.column == position.character,
{
    Point { row: position.line as usize, column: position.character as usize }
}

} // verus!
