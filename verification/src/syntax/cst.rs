//! A source text together with its syntax tree, and highlighting.

use tree_sitter::{Language, Query, Tree};
use vstd::prelude::*;
use vstd::string::StringSliceAdditionalSpecFns;
use crate::buffer::utf8_len;
use crate::syntax::parser::{
    captures_of,
    grammar_accepted,
    parse_with,
    parsed_tree,
    query_captures,
    tree_end,
    tree_extent,
    SyntaxError,
};
use crate::text::owned;
use crate::tokens::{is_converted, tokens_from_captures, SemanticToken, TokenError, TokenModifier};

verus! {

/// Whether `tokens` is what highlighting a text with its tree gives: the
/// captures of the query in the tree, each as a token with the modifier. A
/// tree that reaches beyond the text is not that of the text, and is
/// reported as out of range.
pub open spec fn highlighted(
    query: Query,
    tree: Tree,
    text: Seq<char>,
    modifier: TokenModifier,
    tokens: Result<Vec<SemanticToken>, TokenError>,
) -> bool {
    if tree_extent(tree) > utf8_len(text) {
        tokens == Err::<Vec<SemanticToken>, TokenError>(TokenError::OutOfRange)
    } else {
        is_converted(query_captures(query, tree, text), modifier, tokens)
    }
}

/// Highlighting the same text with the same tree and query gives the
/// same: the same tokens, or the same failure.
pub proof fn lemma_highlight_determined(
    query: Query,
    tree: Tree,
    text: Seq<char>,
    modifier: TokenModifier,
    first: Result<Vec<SemanticToken>, TokenError>,
    second: Result<Vec<SemanticToken>, TokenError>,
)
    requires
        highlighted(query, tree, text, modifier, first),
        highlighted(query, tree, text, modifier, second),
    ensures
        match (first, second) {
            (Ok(a), Ok(b)) => a@ == b@,
            (Err(a), Err(b)) => a == b,
            _ => false,
        },
{
}

/// Highlighting gives one token for each capture of the query, in the
/// order found, each at the place of its capture.
pub proof fn lemma_highlight_per_capture(
    query: Query,
    tree: Tree,
    text: Seq<char>,
    modifier: TokenModifier,
    tokens: Vec<SemanticToken>,
)
    requires
        highlighted(query, tree, text, modifier, Ok::<Vec<SemanticToken>, TokenError>(tokens)),
    ensures
        tokens@.len() == query_captures(query, tree, text).len(),
        forall|i: int|
            0 <= i < tokens@.len() ==> #[trigger] tokens@[i] == crate::tokens::token_of(
                query_captures(query, tree, text)[i],
                modifier,
            ),
{
}

/// The tokens of a text with its tree: one for each capture of the query
/// in the tree, in the order found.
pub fn highlight(query: &Query, tree: &Tree, text: &str, modifier: TokenModifier) -> (tokens: Result<
    Vec<SemanticToken>,
    TokenError,
>)
    ensures
        highlighted(*query, *tree, text@, modifier, tokens),
{
    let length = text.as_bytes().len();
    assert(length == utf8_len(text@)) by {
        assert(text.spec_bytes() == vstd::utf8::encode_utf8(text@));
    }
    if tree_end(tree) > length {
        return Err(TokenError::OutOfRange);
    }
    let captures = captures_of(query, tree, text);
    tokens_from_captures(&captures, modifier)
}

/// A syntax tree and the text that it belongs to.
pub struct SyntaxTree {
    cst: Tree,
    source: String,
}

impl SyntaxTree {
    /// The text of the tree.
    pub closed spec fn source(self) -> Seq<char> {
        self.source@
    }

    /// The tree.
    pub closed spec fn tree(self) -> Tree {
        self.cst
    }

    /// A tree with its text.
    pub fn new(cst: Tree, source: String) -> (tree: Self)
        ensures
            tree.source() == source@,
            tree.tree() == cst,
    {
        SyntaxTree { cst, source }
    }

    /// The tree of a text and of what the parser made of it.
    pub fn from_parsed(source: &str, tree: Result<Tree, SyntaxError>) -> (parsed: Result<
        Self,
        SyntaxError,
    >)
        ensures
            match parsed {
                Ok(t) => tree is Ok && t.source() == source@ && t.tree() == tree->Ok_0,
                Err(e) => tree == Err::<Tree, SyntaxError>(e),
            },
    {
        match tree {
            Ok(cst) => Ok(SyntaxTree { cst, source: owned(source) }),
            Err(e) => Err(e),
        }
    }

    /// Parses the text in full with the given grammar. There is a tree
    /// exactly where the parser takes the grammar.
    pub fn parse(source: &str, language: &Language) -> (parsed: Result<Self, SyntaxError>)
        ensures
            match parsed {
                Ok(t) => {
                    &&& grammar_accepted(*language)
                    &&& t.source() == source@
                    &&& t.tree() == parsed_tree(*language, source@, None)
                },
                Err(e) => !grammar_accepted(*language) && e == SyntaxError::IncompatibleGrammar,
            },
    {
        let tree = parse_with(language, source, None);
        Self::from_parsed(source, tree)
    }

    /// The tokens of the text: what the highlighting query captures in
    /// the tree, each capture as a declaration token.
    pub fn semantic_tokens(&self, query: &Query) -> (tokens: Result<Vec<SemanticToken>, TokenError>)
        ensures
            highlighted(*query, self.tree(), self.source(), TokenModifier::Declaration, tokens),
    {
        highlight(query, &self.cst, self.source.as_str(), TokenModifier::Declaration)
    }
}

} // verus!
