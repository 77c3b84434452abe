//! The text buffer of a document: a rope, what is taken on trust of it, and
//! the measures of text that positions are counted in.

use ropey::Rope;
use vstd::prelude::*;
use vstd::utf8::encode_utf8;

verus! {

/// The number of UTF-16 code units that a character takes.
pub open spec fn utf16_width(c: char) -> nat {
    if c as u32 >= 0x10000 {
        2
    } else {
        1
    }
}

/// The number of UTF-16 code units that a text takes.
pub open spec fn utf16_len(text: Seq<char>) -> nat
    decreases text.len(),
{
    if text.len() == 0 {
        0
    } else {
        utf16_len(text.drop_last()) + utf16_width(text.last())
    }
}

/// The number of bytes that a text takes in UTF-8.
pub open spec fn utf8_len(text: Seq<char>) -> nat {
    encode_utf8(text).len()
}

/// The UTF-16 length of two texts in a row is the sum of their lengths.
pub proof fn lemma_utf16_len_add(a: Seq<char>, b: Seq<char>)
    ensures
        utf16_len(a + b) == utf16_len(a) + utf16_len(b),
    decreases b.len(),
{
    if b.len() == 0 {
        assert(a + b =~= a);
    } else {
        assert((a + b).drop_last() =~= a + b.drop_last());
        assert((a + b).last() == b.last());
        lemma_utf16_len_add(a, b.drop_last());
    }
}

/// A longer prefix of a text takes more UTF-16 code units.
pub proof fn lemma_utf16_len_prefix(text: Seq<char>, i: int, j: int)
    requires
        0 <= i <= j <= text.len(),
    ensures
        utf16_len(text.take(i)) <= utf16_len(text.take(j)),
        i < j ==> utf16_len(text.take(i)) < utf16_len(text.take(j)),
        utf16_len(text.take(j)) == utf16_len(text.take(i)) + utf16_len(text.subrange(i, j)),
    decreases j - i,
{
    assert(text.take(j) =~= text.take(i) + text.subrange(i, j));
    lemma_utf16_len_add(text.take(i), text.subrange(i, j));
    if i < j {
        let rest = text.subrange(i, j);
        assert(utf16_len(rest) == utf16_len(rest.drop_last()) + utf16_width(rest.last()));
    }
}

/// The UTF-8 encoding of two texts in a row is the one encoding after the
/// other.
pub proof fn lemma_encode_utf8_add(a: Seq<char>, b: Seq<char>)
    ensures
        encode_utf8(a + b) == encode_utf8(a) + encode_utf8(b),
    decreases a.len(),
{
    if a.len() == 0 {
        assert(a + b =~= b);
        assert(encode_utf8(a) + encode_utf8(b) =~= encode_utf8(b));
    } else {
        assert((a + b).drop_first() =~= a.drop_first() + b);
        assert((a + b)[0] == a[0]);
        lemma_encode_utf8_add(a.drop_first(), b);
        assert(encode_utf8(a + b) =~= encode_utf8(a) + encode_utf8(b));
    }
}

/// A longer prefix of a text takes no fewer bytes.
pub proof fn lemma_utf8_len_prefix(text: Seq<char>, i: int, j: int)
    requires
        0 <= i <= j <= text.len(),
    ensures
        utf8_len(text.take(j)) == utf8_len(text.take(i)) + utf8_len(text.subrange(i, j)),
{
    assert(text.take(j) =~= text.take(i) + text.subrange(i, j));
    lemma_encode_utf8_add(text.take(i), text.subrange(i, j));
}

/// The rope of the crate `ropey`.
#[verifier::external_type_specification]
#[verifier::external_body]
pub struct ExRope(Rope);

/// The text that a rope holds.
pub uninterp spec fn rope_text(rope: Rope) -> Seq<char>;

/// The number of lines of a text as the rope counts them: one more than
/// the line breaks in it. Which characters the rope takes for line breaks
/// is settled where the crate is built, so the count is named here and not
/// spelled out.
pub uninterp spec fn line_count(text: Seq<char>) -> nat;

/// The index of the character at which a line of a text starts, as the
/// rope counts lines.
pub uninterp spec fn line_start(text: Seq<char>, line: nat) -> nat;

/// `Rope::from_str`: a rope with the given text.
#[verifier::external_body]
pub(crate) fn rope_from_str(text: &str) -> (rope: Rope)
    ensures
        rope_text(rope) == text@,
{
    Rope::from_str(text)
}

/// The rope's text as a string, through its `Display`.
#[verifier::external_body]
pub(crate) fn rope_to_string(rope: &Rope) -> (text: String)
    ensures
        text@ == rope_text(*rope),
{
    rope.to_string()
}

/// `Rope::len_chars`: the number of characters.
#[verifier::external_body]
pub(crate) fn rope_len_chars(rope: &Rope) -> (chars: usize)
    ensures
        chars == rope_text(*rope).len(),
{
    rope.len_chars()
}

/// `Rope::len_bytes`: the number of bytes of the text in UTF-8.
#[verifier::external_body]
pub(crate) fn rope_len_bytes(rope: &Rope) -> (bytes: usize)
    ensures
        bytes == utf8_len(rope_text(*rope)),
{
    rope.len_bytes()
}

/// `Rope::len_lines`: the number of lines, which is at least one.
#[verifier::external_body]
pub(crate) fn rope_len_lines(rope: &Rope) -> (lines: usize)
    ensures
        lines == line_count(rope_text(*rope)),
        lines >= 1,
{
    rope.len_lines()
}

/// `Rope::line_to_char`: the index of the first character of a line. The
/// first line starts with the text, the line after the last one starts at
/// the end of the text, and no line starts before an earlier one. The call
/// panics for a line index above the number of lines.
#[verifier::external_body]
pub(crate) fn rope_line_to_char(rope: &Rope, line: usize) -> (start: usize)
    requires
        line <= line_count(rope_text(*rope)),
    ensures
        start == line_start(rope_text(*rope), line as nat),
        start <= rope_text(*rope).len(),
        line == 0 ==> start == 0,
        line == line_count(rope_text(*rope)) ==> start == rope_text(*rope).len(),
        forall|earlier: nat|
            earlier <= line ==> #[trigger] line_start(rope_text(*rope), earlier) <= start,
{
    rope.line_to_char(line)
}

/// `Rope::char_to_utf16_cu`: the number of UTF-16 code units before a
/// character. The call panics for an index above the number of characters.
#[verifier::external_body]
pub(crate) fn rope_char_to_utf16_cu(rope: &Rope, index: usize) -> (units: usize)
    requires
        index <= rope_text(*rope).len(),
    ensures
        units == utf16_len(rope_text(*rope).take(index as int)),
{
    rope.char_to_utf16_cu(index)
}

/// `Rope::utf16_cu_to_char`: the index of the character that a UTF-16
/// code unit belongs to, and the number of characters for the unit behind
/// the last one. The call panics for a unit above the UTF-16 length.
#[verifier::external_body]
pub(crate) fn rope_utf16_cu_to_char(rope: &Rope, unit: usize) -> (index: usize)
    requires
        unit <= utf16_len(rope_text(*rope)),
    ensures
        index <= rope_text(*rope).len(),
        utf16_len(rope_text(*rope).take(index as int)) <= unit,
        index < rope_text(*rope).len() ==> unit < utf16_len(rope_text(*rope).take(index + 1)),
{
    rope.utf16_cu_to_char(unit)
}

/// `Rope::char_to_byte`: the number of bytes before a character. The call
/// panics for an index above the number of characters.
#[verifier::external_body]
pub(crate) fn rope_char_to_byte(rope: &Rope, index: usize) -> (bytes: usize)
    requires
        index <= rope_text(*rope).len(),
    ensures
        bytes == utf8_len(rope_text(*rope).take(index as int)),
{
    rope.char_to_byte(index)
}

/// Whether `line` is the line of the text that the byte offset lies in:
/// the last line that starts at or before it.
pub open spec fn is_line_of_byte(text: Seq<char>, byte: nat, line: nat) -> bool {
    &&& line < line_count(text)
    &&& utf8_len(text.take(line_start(text, line) as int)) <= byte
    &&& line + 1 < line_count(text) ==> byte < utf8_len(
        text.take(line_start(text, line + 1) as int),
    )
}

/// `Rope::byte_to_line`: the index of the line that a byte belongs to,
/// which for the byte behind the last one is the last line. The call panics
/// for a byte above the length in bytes.
#[verifier::external_body]
pub(crate) fn rope_byte_to_line(rope: &Rope, byte: usize) -> (line: usize)
    requires
        byte <= utf8_len(rope_text(*rope)),
    ensures
        is_line_of_byte(rope_text(*rope), byte as nat, line as nat),
{
    rope.byte_to_line(byte)
}

/// `Rope::line_to_byte`: the number of bytes before the first character
/// of a line. The call panics for a line index above the number of lines.
#[verifier::external_body]
pub(crate) fn rope_line_to_byte(rope: &Rope, line: usize) -> (bytes: usize)
    requires
        line <= line_count(rope_text(*rope)),
    ensures
        bytes == utf8_len(rope_text(*rope).take(line_start(rope_text(*rope), line as nat) as int)),
{
    rope.line_to_byte(line)
}

/// `Rope::remove` with a range of character indices: the text without
/// the characters from `start` up to `end`. The call panics when the range
/// is reversed or ends behind the text.
#[verifier::external_body]
pub(crate) fn rope_remove(rope: &mut Rope, start: usize, end: usize)
    requires
        start <= end <= rope_text(*old(rope)).len(),
    ensures
        rope_text(*final(rope)) == rope_text(*old(rope)).take(start as int) + rope_text(
            *old(rope),
        ).skip(end as int),
{
    rope.remove(start..end)
}

/// `Rope::insert`: the text with `text` put in before the character at
/// `index`. The call panics for an index above the number of characters.
#[verifier::external_body]
pub(crate) fn rope_insert(rope: &mut Rope, index: usize, text: &str)
    requires
        index <= rope_text(*old(rope)).len(),
    ensures
        rope_text(*final(rope)) == rope_text(*old(rope)).take(index as int) + text@ + rope_text(
            *old(rope),
        ).skip(index as int),
{
    rope.insert(index, text)
}

} // verus!
