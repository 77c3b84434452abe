//! An open document: the text of a remote object in an editable buffer,
//! and its syntax tree. Edits change the buffer and are told to the tree;
//! the tree is parsed anew once after a batch of edits.

use ropey::Rope;
use tree_sitter::{Language, Query, Tree};
use vstd::prelude::*;
use crate::adt::object::{ObjectSourceRequest, ObjectSourceRequestView};
use crate::buffer::{
    is_line_of_byte,
    line_count,
    line_start,
    lemma_encode_utf8_add,
    lemma_utf8_len_prefix,
    rope_byte_to_line,
    rope_char_to_byte,
    rope_from_str,
    rope_insert,
    rope_len_bytes,
    rope_len_chars,
    rope_len_lines,
    rope_line_to_byte,
    rope_line_to_char,
    rope_remove,
    rope_text,
    rope_to_string,
    utf8_len,
};
use crate::edits::{char_index_of, position_to_char_index, position_to_point, Point, Position};
use crate::syntax::cst::{highlight, highlighted};
use crate::syntax::parser::{
    edit_tree,
    edited_tree,
    grammar_accepted,
    hint_of,
    parse_with,
    parsed_tree,
    EditSpan,
    SyntaxError,
};
use crate::text::owned;
use crate::tokens::{SemanticToken, TokenError, TokenModifier};

verus! {

/// What a read of an object's source returned.
#[derive(Debug, Eq, PartialEq, Clone)]
pub enum CacheControlled {
    /// The source has not changed since the version that the read named.
    Unmodified,
    /// The source.
    Modified(String),
}

/// A change of a document as the editor reports it: new text for a range,
/// or for the whole document where no range is given.
#[derive(Debug, Eq, PartialEq, Clone)]
pub struct TextChange {
    pub range: Option<(Position, Position)>,
    pub text: String,
}

/// Why an operation on a document failed.
#[derive(Copy, Clone, Debug, PartialEq, Eq, Structural)]
pub enum DocumentError {
    /// A position lies outside the buffer, or a range ends before it
    /// starts.
    InvalidPosition,
    /// The remote side answered that the source is unmodified, and there
    /// is no earlier copy to fall back on.
    StaleCache,
    /// Parsing failed.
    Syntax(SyntaxError),
}

/// The range of characters that a change replaces in a text: from the
/// index that the start of its range names up to the index that the end
/// names, or the whole text where the change has no range. There is none if
/// one of the two positions names no index, or the end lies before the
/// start.
pub open spec fn change_range(text: Seq<char>, range: Option<(Position, Position)>) -> Option<
    (nat, nat),
> {
    match range {
        None => Some((0, text.len())),
        Some((start, end)) => match (char_index_of(text, start), char_index_of(text, end)) {
            (Some(a), Some(b)) => if a <= b {
                Some((a, b))
            } else {
                None
            },
            _ => None,
        },
    }
}

/// The text after replacing the characters from `from` up to `to`.
pub open spec fn replaced(text: Seq<char>, from: nat, to: nat, with: Seq<char>) -> Seq<char> {
    text.take(from as int) + with + text.skip(to as int)
}

/// Whether `span` is what the syntax tree is told of the replacement of
/// the characters from `from` up to `to` of the text `before` by `inserted`,
/// which gave the text `after`. The offsets count bytes: where the range
/// started, where it ended, and where the inserted text ends. The points of
/// start and old end are those of the change's range as the editor gave
/// them; for a change of the whole document they are the origin and the end
/// of the last line. The point of the new end lies in the line of `after`
/// that the new end offset falls in, as many bytes in as the offset is
/// behind the start of that line.
pub open spec fn describes_edit(
    span: EditSpan,
    before: Seq<char>,
    after: Seq<char>,
    range: Option<(Position, Position)>,
    from: nat,
    to: nat,
    inserted: Seq<char>,
) -> bool {
    &&& span.start_byte == utf8_len(before.take(from as int))
    &&& span.old_end_byte == utf8_len(before.take(to as int))
    &&& span.new_end_byte == span.start_byte + utf8_len(inserted)
    &&& match range {
        Some((start, end)) => {
            &&& span.start_position.row == start.line
            &&& span.start_position.column == start.character
            &&& span.old_end_position.row == end.line
            &&& span.old_end_position.column == end.character
        },
        None => {
            &&& span.start_position.row == 0
            &&& span.start_position.column == 0
            &&& span.old_end_position.row == line_count(before) - 1
            &&& span.old_end_position.column == utf8_len(before) - utf8_len(
                before.take(line_start(before, (line_count(before) - 1) as nat) as int),
            )
        },
    }
    &&& is_line_of_byte(after, span.new_end_byte as nat, span.new_end_position.row as nat)
    &&& span.new_end_position.column == span.new_end_byte - utf8_len(
        after.take(line_start(after, span.new_end_position.row as nat) as int),
    )
}

/// Whether the tree `after` is the tree `before` told of the replacement
/// of the characters from `from` up to `to` of the text `text_before` by
/// `inserted`, which gave the text `text_after`.
pub open spec fn tree_told(
    before: Tree,
    after: Tree,
    text_before: Seq<char>,
    text_after: Seq<char>,
    range: Option<(Position, Position)>,
    from: nat,
    to: nat,
    inserted: Seq<char>,
) -> bool {
    exists|span: EditSpan|
        {
            &&& #[trigger] describes_edit(span, text_before, text_after, range, from, to, inserted)
            &&& after == edited_tree(before, span)
        }
}

/// The text after a batch of changes, applied one after the other, each
/// to the text that the one before it left. There is none if one of the
/// changes has no range in the text that it meets.
pub open spec fn batch_text(text: Seq<char>, changes: Seq<TextChange>) -> Option<Seq<char>>
    decreases changes.len(),
{
    if changes.len() == 0 {
        Some(text)
    } else {
        match batch_text(text, changes.drop_last()) {
            None => None,
            Some(before) => match change_range(before, changes.last().range) {
                None => None,
                Some((from, to)) => Some(replaced(before, from, to, changes.last().text@)),
            },
        }
    }
}

/// A batch that fails after some changes fails as a whole.
pub proof fn lemma_batch_fails(text: Seq<char>, changes: Seq<TextChange>, n: int)
    requires
        0 <= n <= changes.len(),
        batch_text(text, changes.take(n)) is None,
    ensures
        batch_text(text, changes) is None,
    decreases changes.len() - n,
{
    if n < changes.len() {
        assert(changes.take(n + 1).drop_last() =~= changes.take(n));
        lemma_batch_fails(text, changes, n + 1);
    } else {
        assert(changes.take(n) =~= changes);
    }
}

/// A range of a buffer, resolved against it.
struct ResolvedRange {
    start_index: usize,
    end_index: usize,
    start_byte: usize,
    old_end_byte: usize,
    start_position: Point,
    old_end_position: Point,
}

/// The document of one remote object.
pub struct SourceCodeDocument {
    vfs_uri: String,
    adt_uri: String,
    rope: Rope,
    cst: Tree,
}

impl SourceCodeDocument {
    /// The text in the buffer.
    pub closed spec fn text(self) -> Seq<char> {
        rope_text(self.rope)
    }

    /// The syntax tree.
    pub closed spec fn tree(self) -> Tree {
        self.cst
    }

    /// The uri under which the editor knows the document.
    pub closed spec fn spec_vfs_uri(self) -> Seq<char> {
        self.vfs_uri@
    }

    /// The uri of the remote object.
    pub closed spec fn spec_adt_uri(self) -> Seq<char> {
        self.adt_uri@
    }

    /// The uri under which the editor knows the document.
    pub fn vfs_uri(&self) -> (uri: &str)
        ensures
            uri@ == self.spec_vfs_uri(),
    {
        self.vfs_uri.as_str()
    }

    /// The uri of the remote object.
    pub fn adt_uri(&self) -> (uri: &str)
        ensures
            uri@ == self.spec_adt_uri(),
    {
        self.adt_uri.as_str()
    }

    /// The read that fetches the source anew: of the remote object of the
    /// document, whatever is cached.
    pub fn source_request(&self) -> (request: ObjectSourceRequest)
        ensures
            request@ == (ObjectSourceRequestView {
                object_uri: self.spec_adt_uri(),
                etag: None,
                version: None,
            }),
    {
        ObjectSourceRequest::new(self.adt_uri.as_str())
    }

    /// The text in the buffer, as a string.
    pub fn raw_content(&self) -> (content: String)
        ensures
            content@ == self.text(),
    {
        rope_to_string(&self.rope)
    }

    /// The document of a text and of what the parser made of it: a
    /// document with the tree where there is one, the parser's failure where
    /// there is none.
    pub fn from_parsed(vfs_uri: &str, adt_uri: &str, content: &str, tree: Result<Tree, SyntaxError>) -> (document:
        Result<Self, DocumentError>)
        ensures
            match document {
                Ok(d) => {
                    &&& tree is Ok
                    &&& d.tree() == tree->Ok_0
                    &&& d.text() == content@
                    &&& d.spec_vfs_uri() == vfs_uri@
                    &&& d.spec_adt_uri() == adt_uri@
                },
                Err(e) => tree matches Err(cause) && e == DocumentError::Syntax(cause),
            },
    {
        match tree {
            Ok(cst) => Ok(
                SourceCodeDocument {
                    vfs_uri: owned(vfs_uri),
                    adt_uri: owned(adt_uri),
                    rope: rope_from_str(content),
                    cst,
                },
            ),
            Err(e) => Err(DocumentError::Syntax(e)),
        }
    }

    /// What a read's answer gives with a grammar: for a source a document
    /// with that text and the tree that the parser makes of it, where the
    /// parser takes the grammar; a failure where it does not. An answer
    /// without source is a stale cache, since there is no copy to fall back
    /// on.
    pub open spec fn fetched(
        vfs_uri: Seq<char>,
        adt_uri: Seq<char>,
        response: CacheControlled,
        language: Language,
        document: Result<Self, DocumentError>,
    ) -> bool {
        match response {
            CacheControlled::Unmodified => document == Err::<Self, DocumentError>(
                DocumentError::StaleCache,
            ),
            CacheControlled::Modified(content) => match document {
                Ok(d) => {
                    &&& grammar_accepted(language)
                    &&& d.text() == content@
                    &&& d.tree() == parsed_tree(language, content@, None)
                    &&& d.spec_vfs_uri() == vfs_uri
                    &&& d.spec_adt_uri() == adt_uri
                },
                Err(e) => !grammar_accepted(language) && e == DocumentError::Syntax(
                    SyntaxError::IncompatibleGrammar,
                ),
            },
        }
    }

    /// The document of a freshly read source: the text is parsed in full
    /// with the given grammar. There is a document for every source, provided
    /// that the parser takes the grammar.
    pub fn fetch(vfs_uri: &str, adt_uri: &str, response: &CacheControlled, language: &Language) -> (document:
        Result<Self, DocumentError>)
        ensures
            Self::fetched(vfs_uri@, adt_uri@, *response, *language, document),
    {
        match response {
            CacheControlled::Unmodified => Err(DocumentError::StaleCache),
            CacheControlled::Modified(content) => {
                let tree = parse_with(language, content.as_str(), None);
                Self::from_parsed(vfs_uri, adt_uri, content.as_str(), tree)
            },
        }
    }

    /// Replaces buffer and tree by a freshly read source, as `fetch` makes
    /// them. On a failure the document stays as it was.
    pub fn refresh(&mut self, response: &CacheControlled, language: &Language) -> (result: Result<
        (),
        DocumentError,
    >)
        ensures
            match result {
                Ok(_) => Self::fetched(
                    old(self).spec_vfs_uri(),
                    old(self).spec_adt_uri(),
                    *response,
                    *language,
                    Ok::<Self, DocumentError>(*final(self)),
                ),
                Err(e) => {
                    &&& Self::fetched(
                        old(self).spec_vfs_uri(),
                        old(self).spec_adt_uri(),
                        *response,
                        *language,
                        Err::<Self, DocumentError>(e),
                    )
                    &&& *final(self) == *old(self)
                },
            },
    {
        let fresh = match Self::fetch(self.vfs_uri.as_str(), self.adt_uri.as_str(), response, language) {
            Ok(fresh) => fresh,
            Err(e) => {
                return Err(e);
            },
        };
        *self = fresh;
        Ok(())
    }

    /// Resolves the range of a change against the buffer.
    fn document_change_range(&self, range: &Option<(Position, Position)>) -> (resolved: Option<
        ResolvedRange,
    >)
        ensures
            match resolved {
                Some(r) => {
                    &&& change_range(self.text(), *range) == Some(
                        (r.start_index as nat, r.end_index as nat),
                    )
                    &&& r.start_index <= r.end_index <= self.text().len()
                    &&& r.start_byte == utf8_len(self.text().take(r.start_index as int))
                    &&& r.old_end_byte == utf8_len(self.text().take(r.end_index as int))
                    &&& match *range {
                        Some((start, end)) => {
                            &&& r.start_position.row == start.line
                            &&& r.start_position.column == start.character
                            &&& r.old_end_position.row == end.line
                            &&& r.old_end_position.column == end.character
                        },
                        None => {
                            &&& r.start_position.row == 0
                            &&& r.start_position.column == 0
                            &&& r.old_end_position.row == line_count(self.text()) - 1
                            &&& r.old_end_position.column == utf8_len(self.text()) - utf8_len(
                                self.text().take(
                                    line_start(
                                        self.text(),
                                        (line_count(self.text()) - 1) as nat,
                                    ) as int,
                                ),
                            )
                        },
                    }
                },
                None => change_range(self.text(), *range) is None,
            },
    {
        match range {
            Some((start, end)) => {
                let start_index = match position_to_char_index(&self.rope, start) {
                    Some(index) => index,
                    None => {
                        return None;
                    },
                };
                let end_index = match position_to_char_index(&self.rope, end) {
                    Some(index) => index,
                    None => {
                        return None;
                    },
                };
                if start_index > end_index {
                    return None;
                }
                Some(
                    ResolvedRange {
                        start_index,
                        end_index,
                        start_byte: rope_char_to_byte(&self.rope, start_index),
                        old_end_byte: rope_char_to_byte(&self.rope, end_index),
                        start_position: position_to_point(start),
                        old_end_position: position_to_point(end),
                    },
                )
            },
            None => {
                let end_index = rope_len_chars(&self.rope);
                let old_end_byte = rope_char_to_byte(&self.rope, end_index);
                let last_line = rope_len_lines(&self.rope) - 1;
                let last_start = rope_line_to_char(&self.rope, last_line);
                let line_byte = rope_char_to_byte(&self.rope, last_start);
                proof {
                    let text = self.text();
                    lemma_utf8_len_prefix(text, last_start as int, text.len() as int);
                    assert(text.take(0) =~= Seq::<char>::empty());
                    assert(text.take(text.len() as int) =~= text);
                }
                Some(
                    ResolvedRange {
                        start_index: 0,
                        end_index,
                        start_byte: 0,
                        old_end_byte,
                        start_position: Point { row: 0, column: 0 },
                        old_end_position: Point { row: last_line, column: old_end_byte - line_byte },
                    },
                )
            },
        }
    }

    /// Applies a change of the editor to the buffer and tells the syntax
    /// tree of it. The tree is not parsed anew: that is done once, with
    /// `reparse`, after the last change of a batch. A change whose range does
    /// not lie in the buffer is rejected and changes nothing.
    pub fn apply_client_edit(&mut self, event: &TextChange) -> (result: Result<(), DocumentError>)
        ensures
            final(self).spec_vfs_uri() == old(self).spec_vfs_uri(),
            final(self).spec_adt_uri() == old(self).spec_adt_uri(),
            change_range(old(self).text(), event.range) is None ==> {
                &&& result == Err::<(), DocumentError>(DocumentError::InvalidPosition)
                &&& final(self).text() == old(self).text()
                &&& final(self).tree() == old(self).tree()
            },
            change_range(old(self).text(), event.range) matches Some((from, to)) ==> {
                &&& result is Ok
                &&& final(self).text() == replaced(old(self).text(), from, to, event.text@)
            },
            change_range(old(self).text(), event.range) matches Some((from, to)) ==> tree_told(
                old(self).tree(),
                final(self).tree(),
                old(self).text(),
                final(self).text(),
                event.range,
                from,
                to,
                event.text@,
            ),
    {
        let range = match self.document_change_range(&event.range) {
            Some(range) => range,
            None => {
                return Err(DocumentError::InvalidPosition);
            },
        };
        let ghost before = self.text();
        let ghost tree_before = self.tree();
        rope_remove(&mut self.rope, range.start_index, range.end_index);
        let inserted = event.text.as_str();
        if !inserted.is_empty() {
            proof {
                let cut = self.text();
                assert(cut.take(range.start_index as int) =~= before.take(range.start_index as int));
                assert(cut.skip(range.start_index as int) =~= before.skip(range.end_index as int));
            }
            rope_insert(&mut self.rope, range.start_index, inserted);
        } else {
            assert(self.text() =~= replaced(
                before,
                range.start_index as nat,
                range.end_index as nat,
                inserted@,
            ));
        }
        let ghost after = self.text();
        // The length of the new text in bytes fits: the rope holds it.
        let _ = rope_len_bytes(&self.rope);
        proof {
            let head = before.take(range.start_index as int) + inserted@;
            assert(after =~= head + before.skip(range.end_index as int));
            lemma_encode_utf8_add(head, before.skip(range.end_index as int));
            lemma_encode_utf8_add(before.take(range.start_index as int), inserted@);
        }
        let new_end_byte = range.start_byte + inserted.len();
        let line = rope_byte_to_line(&self.rope, new_end_byte);
        let line_byte = rope_line_to_byte(&self.rope, line);
        let span = EditSpan {
            start_byte: range.start_byte,
            old_end_byte: range.old_end_byte,
            new_end_byte,
            start_position: range.start_position,
            old_end_position: range.old_end_position,
            new_end_position: Point { row: line, column: new_end_byte - line_byte },
        };
        edit_tree(&mut self.cst, &span);
        assert(self.text() == after);
        assert(self.tree() == edited_tree(tree_before, span));
        assert(describes_edit(
            span,
            before,
            after,
            event.range,
            range.start_index as nat,
            range.end_index as nat,
            event.text@,
        ));
        assert(change_range(before, event.range) == Some(
            (range.start_index as nat, range.end_index as nat),
        ));
        assert(after == replaced(before, range.start_index as nat, range.end_index as nat, event.text@));
        assert(tree_told(
            tree_before,
            self.tree(),
            before,
            after,
            event.range,
            range.start_index as nat,
            range.end_index as nat,
            event.text@,
        ));
        Ok(())
    }

    /// Applies a batch of changes, one after the other, and parses the
    /// buffer anew once at the end. The batch ends at the first change that
    /// is rejected: the changes before it stay applied, those after it are
    /// dropped. The buffer is parsed in either case, with the tree as the
    /// changes left it for a hint; where the parser refuses the grammar, the
    /// tree stays as the changes left it.
    pub fn apply_client_edits(&mut self, events: &Vec<TextChange>, language: &Language) -> (result:
        Result<(), DocumentError>)
        ensures
            final(self).spec_vfs_uri() == old(self).spec_vfs_uri(),
            final(self).spec_adt_uri() == old(self).spec_adt_uri(),
            grammar_accepted(*language) ==> exists|hint: Tree| #[trigger]
                parsed_tree(*language, final(self).text(), Some(hint)) == final(self).tree(),
            match batch_text(old(self).text(), events@) {
                Some(text) => {
                    &&& final(self).text() == text
                    &&& match result {
                        Ok(_) => grammar_accepted(*language),
                        Err(e) => !grammar_accepted(*language) && e == DocumentError::Syntax(
                            SyntaxError::IncompatibleGrammar,
                        ),
                    }
                },
                None => {
                    &&& result == Err::<(), DocumentError>(DocumentError::InvalidPosition)
                    &&& exists|n: int|
                        {
                            &&& 0 <= n < events@.len()
                            &&& #[trigger] batch_text(old(self).text(), events@.take(n)) == Some(
                                final(self).text(),
                            )
                            &&& batch_text(old(self).text(), events@.take(n + 1)) is None
                        }
                },
            },
    {
        let ghost start = self.text();
        let mut i: usize = 0;
        let mut rejected = false;
        assert(events@.take(0) =~= Seq::<TextChange>::empty());
        while i < events.len() && !rejected
            invariant
                i <= events@.len(),
                start == old(self).text(),
                self.spec_vfs_uri() == old(self).spec_vfs_uri(),
                self.spec_adt_uri() == old(self).spec_adt_uri(),
                !rejected ==> batch_text(start, events@.take(i as int)) == Some(self.text()),
                rejected ==> i < events@.len() && batch_text(start, events@.take(i as int)) == Some(
                    self.text(),
                ) && batch_text(start, events@.take(i + 1)) is None,
            decreases events@.len() - i + if rejected { 0int } else { 1int },
        {
            assert(events@.take(i + 1).drop_last() =~= events@.take(i as int));
            assert(events@.take(i + 1).last() == events@[i as int]);
            match self.apply_client_edit(&events[i]) {
                Ok(_) => {
                    i += 1;
                },
                Err(_) => {
                    rejected = true;
                },
            }
        }
        let ghost hint = self.tree();
        let parsed = self.reparse(language);
        assert(grammar_accepted(*language) ==> parsed_tree(*language, self.text(), Some(hint))
            == self.tree());
        if rejected {
            proof {
                lemma_batch_fails(start, events@, i + 1);
            }
            return Err(DocumentError::InvalidPosition);
        }
        assert(events@.take(i as int) =~= events@);
        parsed
    }

    /// Parses the buffer anew with the given grammar, with the tree so far
    /// as a hint. To be called once after a batch of changes. The new tree
    /// takes the place of the old one exactly where the parser takes the
    /// grammar; else the tree stays as it was.
    pub fn reparse(&mut self, language: &Language) -> (result: Result<(), DocumentError>)
        ensures
            final(self).text() == old(self).text(),
            final(self).spec_vfs_uri() == old(self).spec_vfs_uri(),
            final(self).spec_adt_uri() == old(self).spec_adt_uri(),
            match result {
                Ok(_) => grammar_accepted(*language) && final(self).tree() == parsed_tree(
                    *language,
                    old(self).text(),
                    Some(old(self).tree()),
                ),
                Err(e) => {
                    &&& !grammar_accepted(*language)
                    &&& e == DocumentError::Syntax(SyntaxError::IncompatibleGrammar)
                    &&& final(self).tree() == old(self).tree()
                },
            },
    {
        let content = rope_to_string(&self.rope);
        match parse_with(language, content.as_str(), Some(&self.cst)) {
            Ok(tree) => {
                self.cst = tree;
                Ok(())
            },
            Err(e) => Err(DocumentError::Syntax(e)),
        }
    }

    /// The tokens of the document: what the highlighting query captures in
    /// the syntax tree, each capture as a token without modifier.
    pub fn semantic_tokens(&self, query: &Query) -> (tokens: Result<Vec<SemanticToken>, TokenError>)
        ensures
            highlighted(*query, self.tree(), self.text(), TokenModifier::NoModifier, tokens),
    {
        let content = rope_to_string(&self.rope);
        highlight(query, &self.cst, content.as_str(), TokenModifier::NoModifier)
    }
}

} // verus!
