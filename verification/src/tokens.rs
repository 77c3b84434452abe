//! Token categories of the highlighting legend and the tokens themselves.

use vstd::prelude::*;
use crate::syntax::parser::{capture_views, Capture, CaptureView};
use crate::text::str_eq;

verus! {

/// Category of a highlighted span. The order of the variants is the order
/// of the legend announced to the editor.
#[derive(Copy, Clone, Debug, PartialEq, Eq, Structural)]
pub enum TokenType {
    Variable,
    Keyword,
    Number,
    String,
    Type,
    Comment,
    Operator,
}

/// The legend: the name of every category, in the order of their indices.
pub open spec fn legend() -> Seq<Seq<char>> {
    seq![
        "variable"@,
        "keyword"@,
        "number"@,
        "string"@,
        "type"@,
        "comment"@,
        "operator"@,
    ]
}

/// Whether `name` is the name of a category.
pub open spec fn is_token_name(name: Seq<char>) -> bool {
    exists|i: int| 0 <= i < legend().len() && legend()[i] == name
}

/// The names of the legend are pairwise different.
pub proof fn lemma_legend_distinct()
    ensures
        legend().len() == 7,
        forall|i: int, j: int|
            0 <= i < j < legend().len() ==> #[trigger] legend()[i] != #[trigger] legend()[j],
{
    reveal_strlit("variable");
    reveal_strlit("keyword");
    reveal_strlit("number");
    reveal_strlit("string");
    reveal_strlit("type");
    reveal_strlit("comment");
    reveal_strlit("operator");
    let l = legend();
    assert(l[0].len() == 8 && l[1].len() == 7 && l[2].len() == 6 && l[3].len() == 6);
    assert(l[4].len() == 4 && l[5].len() == 7 && l[6].len() == 8);
    assert(l[0][0] == 'v' && l[6][0] == 'o');
    assert(l[1][0] == 'k' && l[5][0] == 'c');
    assert(l[2][0] == 'n' && l[3][0] == 's');
}

impl TokenType {
    /// Position of the category in the legend.
    pub open spec fn spec_index(self) -> nat {
        match self {
            TokenType::Variable => 0,
            TokenType::Keyword => 1,
            TokenType::Number => 2,
            TokenType::String => 3,
            TokenType::Type => 4,
            TokenType::Comment => 5,
            TokenType::Operator => 6,
        }
    }

    /// The category at a position of the legend.
    pub open spec fn at(i: int) -> TokenType {
        if i == 0 {
            TokenType::Variable
        } else if i == 1 {
            TokenType::Keyword
        } else if i == 2 {
            TokenType::Number
        } else if i == 3 {
            TokenType::String
        } else if i == 4 {
            TokenType::Type
        } else if i == 5 {
            TokenType::Comment
        } else {
            TokenType::Operator
        }
    }

    /// The name under which the highlighting query captures this category.
    pub open spec fn spec_name(self) -> Seq<char> {
        legend()[self.spec_index() as int]
    }

    /// The index of the category in the legend.
    pub fn index(&self) -> (idx: u32)
        ensures
            idx == self.spec_index(),
            idx < 7,
    {
        match self {
            TokenType::Variable => 0,
            TokenType::Keyword => 1,
            TokenType::Number => 2,
            TokenType::String => 3,
            TokenType::Type => 4,
            TokenType::Comment => 5,
            TokenType::Operator => 6,
        }
    }

    /// Every category, in legend order.
    pub fn all() -> (all: Vec<TokenType>)
        ensures
            all@.len() == 7,
            forall|i: int| 0 <= i < 7 ==> all@[i] == TokenType::at(i),
    {
        vec![
            TokenType::Variable,
            TokenType::Keyword,
            TokenType::Number,
            TokenType::String,
            TokenType::Type,
            TokenType::Comment,
            TokenType::Operator,
        ]
    }

    /// The names of the legend, in index order.
    pub fn names() -> (names: Vec<&'static str>)
        ensures
            names@.len() == legend().len(),
            forall|i: int| 0 <= i < names@.len() ==> names@[i]@ == legend()[i],
    {
        vec!["variable", "keyword", "number", "string", "type", "comment", "operator"]
    }

    /// The category with the given name, if there is one.
    pub fn try_from_name(name: &str) -> (found: Option<TokenType>)
        ensures
            found is Some <==> is_token_name(name@),
            found matches Some(t) ==> t.spec_name() == name@,
    {
        let names = Self::names();
        let all = Self::all();
        let mut i: usize = 0;
        while i < names.len()
            invariant
                i <= names@.len() == 7,
                legend().len() == 7,
                all@.len() == 7,
                forall|k: int| 0 <= k < 7 ==> all@[k] == TokenType::at(k),
                forall|k: int| 0 <= k < 7 ==> names@[k]@ == legend()[k],
                forall|k: int| 0 <= k < i ==> legend()[k] != name@,
            decreases names@.len() - i,
        {
            if str_eq(names[i], name) {
                let t = all[i];
                assert(t == TokenType::at(i as int));
                assert(names@[i as int]@ == legend()[i as int]);
                return Some(t);
            }
            i += 1;
        }
        None
    }

    /// The category with the given name. The name has to be one of the
    /// legend: a capture name outside it is a configuration error.
    pub fn from_name(name: &str) -> (t: TokenType)
        requires
            is_token_name(name@),
        ensures
            t.spec_name() == name@,
    {
        match Self::try_from_name(name) {
            Some(t) => t,
            None => {
                proof {
                    assert(false);
                }
                TokenType::Variable
            },
        }
    }
}

/// Modifier set of a token.
#[derive(Copy, Clone, Debug, PartialEq, Eq, Structural)]
pub enum TokenModifier {
    NoModifier,
    Declaration,
}

/// One highlighted span of a document.
#[derive(Copy, Clone, Debug, PartialEq, Eq, Structural)]
pub struct SemanticToken {
    pub start_byte: usize,
    pub row: u32,
    pub column: u32,
    pub length: u32,
    pub token_type: TokenType,
    pub token_modifiers_bitset: TokenModifier,
}

/// Why captures could not be turned into tokens.
#[derive(Copy, Clone, Debug, PartialEq, Eq, Structural)]
pub enum TokenError {
    /// A capture has a name that is none of the legend.
    UnknownCapture,
    /// A capture ends before it starts, or its row, column or length does
    /// not fit in 32 bits, or the tree reaches beyond the text.
    OutOfRange,
}

/// Different categories have different names.
pub proof fn lemma_name_injective(a: TokenType, b: TokenType)
    requires
        a.spec_name() == b.spec_name(),
    ensures
        a == b,
{
    lemma_legend_distinct();
    let i = a.spec_index() as int;
    let j = b.spec_index() as int;
    if i < j {
        assert(legend()[i] != legend()[j]);
    } else if j < i {
        assert(legend()[j] != legend()[i]);
    }
}

/// The category with the given name, for a name of the legend.
pub open spec fn type_named(name: Seq<char>) -> TokenType {
    choose|t: TokenType| t.spec_name() == name
}

/// Whether the place of a capture can be held by a token.
pub open spec fn in_range(capture: CaptureView) -> bool {
    &&& capture.start_byte <= capture.end_byte
    &&& capture.end_byte - capture.start_byte <= u32::MAX
    &&& capture.row <= u32::MAX
    &&& capture.column <= u32::MAX
}

/// What stands in the way of a token for the capture, if anything: an
/// unknown name before a place out of range.
pub open spec fn token_failure(capture: CaptureView) -> Option<TokenError> {
    if !is_token_name(capture.name) {
        Some(TokenError::UnknownCapture)
    } else if !in_range(capture) {
        Some(TokenError::OutOfRange)
    } else {
        None
    }
}

/// The token of a capture: at the start of the captured node, as long as
/// the node, of the category that the capture is named after.
pub open spec fn token_of(capture: CaptureView, modifier: TokenModifier) -> SemanticToken {
    SemanticToken {
        start_byte: capture.start_byte,
        row: capture.row as u32,
        column: capture.column as u32,
        length: (capture.end_byte - capture.start_byte) as u32,
        token_type: type_named(capture.name),
        token_modifiers_bitset: modifier,
    }
}

/// The token of one capture.
pub fn token_from_capture(capture: &Capture, modifier: TokenModifier) -> (token: Result<
    SemanticToken,
    TokenError,
>)
    ensures
        match token {
            Ok(t) => token_failure(capture@) is None && t == token_of(capture@, modifier),
            Err(e) => token_failure(capture@) == Some(e),
        },
{
    let token_type = match TokenType::try_from_name(capture.name.as_str()) {
        Some(t) => t,
        None => {
            return Err(TokenError::UnknownCapture);
        },
    };
    proof {
        lemma_name_injective(token_type, type_named(capture@.name));
    }
    if capture.start_byte > capture.end_byte {
        return Err(TokenError::OutOfRange);
    }
    let length = capture.end_byte - capture.start_byte;
    if length > u32::MAX as usize || capture.row > u32::MAX as usize || capture.column
        > u32::MAX as usize {
        return Err(TokenError::OutOfRange);
    }
    Ok(
        SemanticToken {
            start_byte: capture.start_byte,
            row: capture.row as u32,
            column: capture.column as u32,
            length: length as u32,
            token_type,
            token_modifiers_bitset: modifier,
        },
    )
}

/// What stands in the way of tokens for the captures: what stands in the
/// way of the first capture that has no token.
pub open spec fn first_failure(captures: Seq<CaptureView>) -> Option<TokenError>
    decreases captures.len(),
{
    if captures.len() == 0 {
        None
    } else {
        match first_failure(captures.drop_last()) {
            Some(e) => Some(e),
            None => token_failure(captures.last()),
        }
    }
}

/// The tokens of captures: one for each capture, in the order given,
/// unless something stands in the way.
pub open spec fn converted(captures: Seq<CaptureView>, modifier: TokenModifier) -> Result<
    Seq<SemanticToken>,
    TokenError,
> {
    match first_failure(captures) {
        Some(e) => Err(e),
        None => Ok(captures.map_values(|c: CaptureView| token_of(c, modifier))),
    }
}

/// Whether `tokens` is what the captures convert to.
pub open spec fn is_converted(
    captures: Seq<CaptureView>,
    modifier: TokenModifier,
    tokens: Result<Vec<SemanticToken>, TokenError>,
) -> bool {
    match tokens {
        Ok(found) => converted(captures, modifier) == Ok::<Seq<SemanticToken>, TokenError>(found@),
        Err(e) => converted(captures, modifier) == Err::<Seq<SemanticToken>, TokenError>(e),
    }
}

/// The tokens of the captures of a highlighting query, one for each
/// capture in the order given. Fails with what stands in the way of the
/// first capture that has no token.
pub fn tokens_from_captures(captures: &Vec<Capture>, modifier: TokenModifier) -> (tokens: Result<
    Vec<SemanticToken>,
    TokenError,
>)
    ensures
        is_converted(capture_views(captures@), modifier, tokens),
{
    let ghost views = capture_views(captures@);
    let mut found: Vec<SemanticToken> = Vec::new();
    let mut i: usize = 0;
    assert(views.take(0) =~= Seq::<CaptureView>::empty());
    while i < captures.len()
        invariant
            i <= captures@.len(),
            views == capture_views(captures@),
            first_failure(views.take(i as int)) is None,
            found@ == views.take(i as int).map_values(|c: CaptureView| token_of(c, modifier)),
        decreases captures@.len() - i,
    {
        assert(views.take(i + 1).drop_last() =~= views.take(i as int));
        assert(views.take(i + 1).last() == captures@[i as int]@);
        match token_from_capture(&captures[i], modifier) {
            Ok(token) => {
                found.push(token);
                assert(found@ =~= views.take(i + 1).map_values(
                    |c: CaptureView| token_of(c, modifier),
                ));
            },
            Err(e) => {
                proof {
                    lemma_failure_stays(views, i + 1);
                }
                return Err(e);
            },
        }
        i += 1;
    }
    assert(views.take(i as int) =~= views);
    Ok(found)
}

/// A failure among the first captures is the failure of all of them.
proof fn lemma_failure_stays(captures: Seq<CaptureView>, n: int)
    requires
        0 <= n <= captures.len(),
        first_failure(captures.take(n)) is Some,
    ensures
        first_failure(captures) == first_failure(captures.take(n)),
    decreases captures.len() - n,
{
    if n < captures.len() {
        assert(captures.take(n + 1).drop_last() =~= captures.take(n));
        lemma_failure_stays(captures, n + 1);
    } else {
        assert(captures.take(n) =~= captures);
    }
}

} // verus!
