//! The parser and the highlighting query of the crate `tree_sitter`, and
//! what is taken on trust of them. The grammar is not part of this library:
//! its language and its query text come from the caller.

use tree_sitter::{InputEdit, Language, Parser, Query, QueryCursor, StreamingIterator, Tree};
use vstd::prelude::*;
use crate::edits::Point;

verus! {

/// A grammar, ready to be given to a parser.
#[verifier::external_type_specification]
#[verifier::external_body]
pub struct ExLanguage(Language);

/// A parser.
#[verifier::external_type_specification]
#[verifier::external_body]
pub struct ExParser(Parser);

/// A concrete syntax tree.
#[verifier::external_type_specification]
#[verifier::external_body]
pub struct ExTree(Tree);

/// A compiled query.
#[verifier::external_type_specification]
#[verifier::external_body]
pub struct ExQuery(Query);

/// Why parsing or highlighting failed.
#[derive(Copy, Clone, Debug, PartialEq, Eq, Structural)]
pub enum SyntaxError {
    /// The parser does not accept the grammar.
    IncompatibleGrammar,
    /// The parser returned no tree.
    ParseFailed,
    /// The query text does not compile against the grammar.
    InvalidQuery,
}

/// One node that the highlighting query captured: the name of the
/// capture, and where the node lies.
#[derive(Debug, Eq, PartialEq, Clone)]
pub struct Capture {
    pub name: String,
    pub start_byte: usize,
    pub end_byte: usize,
    pub row: usize,
    pub column: usize,
}

/// A `Capture` as contracts see it: texts by their characters.
pub struct CaptureView {
    pub name: Seq<char>,
    pub start_byte: usize,
    pub end_byte: usize,
    pub row: usize,
    pub column: usize,
}

impl View for Capture {
    type V = CaptureView;

    open spec fn view(&self) -> CaptureView {
        CaptureView {
            name: self.name@,
            start_byte: self.start_byte,
            end_byte: self.end_byte,
            row: self.row,
            column: self.column,
        }
    }
}

/// Captures as contracts see them.
pub open spec fn capture_views(captures: Seq<Capture>) -> Seq<CaptureView> {
    captures.map_values(|c: Capture| c@)
}

/// An edit of a text as the syntax tree is told of it: where the changed
/// range started, where it ended before and where it ends now, each as a
/// byte offset and as a point.
#[derive(Copy, Clone, Debug, PartialEq, Eq, Structural)]
pub struct EditSpan {
    pub start_byte: usize,
    pub old_end_byte: usize,
    pub new_end_byte: usize,
    pub start_position: Point,
    pub old_end_position: Point,
    pub new_end_position: Point,
}

/// Whether a parser takes the grammar: whether the grammar was made
/// for a version of the parser that the parser at hand can work with.
pub uninterp spec fn grammar_accepted(language: Language) -> bool;

/// What a parser was set up with.
pub struct ParserSetup {
    /// The grammar that the parser was given, if any.
    pub language: Option<Language>,
    /// Whether the parser is otherwise as it was made: without a timeout,
    /// without a flag to cancel it, without ranges to keep to.
    pub plain: bool,
}

/// What the parser was set up with.
pub uninterp spec fn parser_setup(parser: Parser) -> ParserSetup;

/// The tree that a parser with the grammar makes of the text, with an
/// earlier tree as a hint or without one.
pub uninterp spec fn parsed_tree(language: Language, text: Seq<char>, hint: Option<Tree>) -> Tree;

/// The tree after it was told of an edit of its text.
pub uninterp spec fn edited_tree(tree: Tree, span: EditSpan) -> Tree;

/// The byte offset at which the root of the tree ends. No node of the
/// tree reaches beyond it.
pub uninterp spec fn tree_extent(tree: Tree) -> nat;

/// The query that the text compiles to against the grammar, if it
/// compiles.
pub uninterp spec fn compiled_query(language: Language, source: Seq<char>) -> Option<Query>;

/// What the query captures in the tree: every capture of every match, in
/// the order found.
pub uninterp spec fn query_captures(query: Query, tree: Tree, text: Seq<char>) -> Seq<CaptureView>;

/// The hint as a value.
pub open spec fn hint_of(old_tree: Option<&Tree>) -> Option<Tree> {
    match old_tree {
        Some(tree) => Some(*tree),
        None => None,
    }
}

/// `Parser::new`: a parser without grammar, timeout, cancellation flag
/// or ranges.
#[verifier::external_body]
pub(crate) fn new_parser() -> (made: Parser)
    ensures
        parser_setup(made).language is None,
        parser_setup(made).plain,
{
    Parser::new()
}

/// `Parser::set_language`: whether the parser took the grammar, which
/// depends on the grammar alone. A parser that took it has it from then on;
/// one that refused it keeps what it had. Nothing else of the parser
/// changes.
#[verifier::external_body]
pub(crate) fn set_language(parser: &mut Parser, language: &Language) -> (accepted: bool)
    ensures
        accepted == grammar_accepted(*language),
        parser_setup(*final(parser)).plain == parser_setup(*old(parser)).plain,
        parser_setup(*final(parser)).language == if grammar_accepted(*language) {
            Some(*language)
        } else {
            parser_setup(*old(parser)).language
        },
{
    parser.set_language(language).is_ok()
}

/// `Parser::parse`: the tree of the text, with an earlier tree as a hint,
/// or nothing. A parser returns nothing where it has no grammar, where its
/// timeout ran out and where it was cancelled: a plain parser returns a
/// tree exactly where it has a grammar.
#[verifier::external_body]
pub(crate) fn parse_text(parser: &mut Parser, text: &str, old_tree: Option<&Tree>) -> (tree: Option<
    Tree,
>)
    ensures
        parser_setup(*old(parser)).plain ==> tree == (match parser_setup(*old(parser)).language {
            Some(language) => Some(parsed_tree(language, text@, hint_of(old_tree))),
            None => None,
        }),
{
    parser.parse(text, old_tree)
}

/// `Tree::edit`: tells the tree of an edit of its text.
#[verifier::external_body]
pub(crate) fn edit_tree(tree: &mut Tree, span: &EditSpan)
    ensures
        *final(tree) == edited_tree(*old(tree), *span),
{
    tree.edit(
        &InputEdit {
            start_byte: span.start_byte,
            old_end_byte: span.old_end_byte,
            new_end_byte: span.new_end_byte,
            start_position: tree_sitter::Point::new(span.start_position.row, span.start_position.column),
            old_end_position: tree_sitter::Point::new(span.old_end_position.row, span.old_end_position.column),
            new_end_position: tree_sitter::Point::new(span.new_end_position.row, span.new_end_position.column),
        },
    )
}

/// `Node::end_byte` of `Tree::root_node`: the byte offset at which the
/// root of the tree ends.
#[verifier::external_body]
pub(crate) fn tree_end(tree: &Tree) -> (end: usize)
    ensures
        end == tree_extent(*tree),
{
    tree.root_node().end_byte()
}

/// `Query::new`: the query compiled against the grammar, or nothing where
/// it does not compile.
#[verifier::external_body]
pub(crate) fn new_query(language: &Language, source: &str) -> (query: Option<Query>)
    ensures
        query == compiled_query(*language, source@),
{
    Query::new(language, source).ok()
}

/// Runs the query over the tree with `QueryCursor::matches` and hands out
/// every capture of every match, in the order found. Matching reads the text
/// of nodes by their byte ranges, and panics for a node that reaches beyond
/// the text: the tree has to end within it.
#[verifier::external_body]
pub(crate) fn captures_of(query: &Query, tree: &Tree, text: &str) -> (found: Vec<Capture>)
    requires
        tree_extent(*tree) <= crate::buffer::utf8_len(text@),
    ensures
        capture_views(found@) == query_captures(*query, *tree, text@),
{
    let mut cursor = QueryCursor::new();
    let mut matches = cursor.matches(query, tree.root_node(), text.as_bytes());
    let mut found = Vec::new();
    while let Some(m) = matches.next() {
        for c in m.captures {
            let name = query.capture_names()[c.index as usize].to_owned();
            let (start_byte, end_byte, at) = (c.node.start_byte(), c.node.end_byte(), c.node.start_position());
            found.push(Capture { name, start_byte, end_byte, row: at.row, column: at.column });
        }
    }
    found
}

/// What loading a parser comes to, once the parser was asked to take the
/// grammar: the parser itself where it took it, a failure where it did not.
pub fn parser_if_accepted(parser: Parser, accepted: bool) -> (loaded: Result<Parser, SyntaxError>)
    ensures
        loaded == if accepted {
            Ok::<Parser, SyntaxError>(parser)
        } else {
            Err::<Parser, SyntaxError>(SyntaxError::IncompatibleGrammar)
        },
{
    if accepted {
        Ok(parser)
    } else {
        Err(SyntaxError::IncompatibleGrammar)
    }
}

/// What loading a query comes to, once its text was compiled against
/// the grammar: the query where there is one, a failure where there is none.
pub fn query_if_compiled(compiled: Option<Query>) -> (loaded: Result<Query, SyntaxError>)
    ensures
        loaded == match compiled {
            Some(query) => Ok::<Query, SyntaxError>(query),
            None => Err::<Query, SyntaxError>(SyntaxError::InvalidQuery),
        },
{
    match compiled {
        Some(query) => Ok(query),
        None => Err(SyntaxError::InvalidQuery),
    }
}

/// A plain parser for the grammar. There is one exactly where the parser
/// takes the grammar.
pub fn load_parser(language: &Language) -> (parser: Result<Parser, SyntaxError>)
    ensures
        match parser {
            Ok(p) => {
                &&& grammar_accepted(*language)
                &&& parser_setup(p).language == Some(*language)
                &&& parser_setup(p).plain
            },
            Err(e) => !grammar_accepted(*language) && e == SyntaxError::IncompatibleGrammar,
        },
{
    let mut parser = new_parser();
    let accepted = set_language(&mut parser, language);
    parser_if_accepted(parser, accepted)
}

/// The query that the text compiles to against the grammar, and a
/// failure where it does not compile.
pub fn load_query(language: &Language, source: &str) -> (query: Result<Query, SyntaxError>)
    ensures
        query == match compiled_query(*language, source@) {
            Some(q) => Ok::<Query, SyntaxError>(q),
            None => Err::<Query, SyntaxError>(SyntaxError::InvalidQuery),
        },
{
    let compiled = new_query(language, source);
    query_if_compiled(compiled)
}

/// The tree that a newly loaded parser makes of the text, with an
/// earlier tree as a hint or without one. There is one exactly where the
/// parser takes the grammar.
pub fn parse_with(language: &Language, text: &str, old_tree: Option<&Tree>) -> (tree: Result<
    Tree,
    SyntaxError,
>)
    ensures
        match tree {
            Ok(t) => grammar_accepted(*language) && t == parsed_tree(
                *language,
                text@,
                hint_of(old_tree),
            ),
            Err(e) => !grammar_accepted(*language) && e == SyntaxError::IncompatibleGrammar,
        },
{
    let mut parser = match load_parser(language) {
        Ok(parser) => parser,
        Err(e) => {
            return Err(e);
        },
    };
    match parse_text(&mut parser, text, old_tree) {
        Some(tree) => Ok(tree),
        None => Err(SyntaxError::IncompatibleGrammar),
    }
}

} // verus!
