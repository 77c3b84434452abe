//! Answers to editor requests: the relative token stream of a highlighting
//! request.

use vstd::prelude::*;
use crate::tokens::SemanticToken;

verus! {

/// One entry of the relative token stream sent to the editor.
#[derive(Copy, Clone, Debug, PartialEq, Eq, Structural)]
pub struct EncodedToken {
    pub delta_line: u32,
    pub delta_start: u32,
    pub length: u32,
    pub token_type: u32,
    pub token_modifiers_bitset: u32,
}

/// Whether the position (`row`, `column`) is not after the start of `t`.
pub open spec fn not_after(row: u32, column: u32, t: SemanticToken) -> bool {
    row < t.row || (row == t.row && column <= t.column)
}

/// `t` expressed relative to the position (`row`, `column`): the line
/// difference, then the column difference on the same line and the absolute
/// column on a later line.
pub open spec fn relative_to(row: u32, column: u32, t: SemanticToken) -> EncodedToken {
    EncodedToken {
        delta_line: (t.row - row) as u32,
        delta_start: if t.row == row {
            (t.column - column) as u32
        } else {
            t.column
        },
        length: t.length,
        token_type: t.token_type.spec_index() as u32,
        token_modifiers_bitset: 0,
    }
}

/// Row of the token before index `i`, row 0 before the first.
pub open spec fn row_before(tokens: Seq<SemanticToken>, i: int) -> u32 {
    if i <= 0 {
        0
    } else {
        tokens[i - 1].row
    }
}

/// Column of the token before index `i`, column 0 before the first.
pub open spec fn column_before(tokens: Seq<SemanticToken>, i: int) -> u32 {
    if i <= 0 {
        0
    } else {
        tokens[i - 1].column
    }
}

/// No token starts before its predecessor.
pub open spec fn positions_ascend(tokens: Seq<SemanticToken>) -> bool {
    forall|i: int|
        0 <= i < tokens.len() ==> not_after(
            row_before(tokens, i),
            column_before(tokens, i),
            #[trigger] tokens[i],
        )
}

/// The relative stream of `tokens`, taken in the order given: every token
/// relative to the one before it, the first relative to (0, 0).
pub open spec fn delta_encoded(tokens: Seq<SemanticToken>) -> Seq<EncodedToken> {
    Seq::new(
        tokens.len(),
        |i: int| relative_to(row_before(tokens, i), column_before(tokens, i), tokens[i]),
    )
}

/// What the entries of a stream say of a token, for tokens that do not
/// start before their predecessors: the first entry holds the position of
/// the first token, every later one the line difference to the token before
/// it, with the column difference where that is zero and the column itself
/// where it is not. Length and category are those of the token.
pub proof fn lemma_delta_encoding(tokens: Seq<SemanticToken>, i: int)
    requires
        positions_ascend(tokens),
        0 <= i < tokens.len(),
    ensures
        delta_encoded(tokens).len() == tokens.len(),
        i == 0 ==> delta_encoded(tokens)[i].delta_line == tokens[i].row && delta_encoded(
            tokens,
        )[i].delta_start == tokens[i].column,
        i > 0 ==> delta_encoded(tokens)[i].delta_line == tokens[i].row - tokens[i - 1].row,
        i > 0 && delta_encoded(tokens)[i].delta_line > 0 ==> delta_encoded(tokens)[i].delta_start
            == tokens[i].column,
        i > 0 && delta_encoded(tokens)[i].delta_line == 0 ==> delta_encoded(tokens)[i].delta_start
            == tokens[i].column - tokens[i - 1].column,
        delta_encoded(tokens)[i].length == tokens[i].length,
        delta_encoded(tokens)[i].token_type == tokens[i].token_type.spec_index(),
        delta_encoded(tokens)[i].token_modifiers_bitset == 0,
{
    assert(not_after(row_before(tokens, i), column_before(tokens, i), tokens[i]));
}

/// The row that a reader of the stream is in after `n` entries: the sum
/// of their line differences.
pub open spec fn decoded_row(stream: Seq<EncodedToken>, n: nat) -> int
    decreases n,
{
    if n == 0 {
        0
    } else {
        decoded_row(stream, (n - 1) as nat) + stream[n - 1].delta_line
    }
}

/// The column that a reader of the stream is in after `n` entries: on a
/// new line the start held by the last entry, on the same line the column
/// before plus that start.
pub open spec fn decoded_column(stream: Seq<EncodedToken>, n: nat) -> int
    decreases n,
{
    if n == 0 {
        0
    } else if stream[n - 1].delta_line > 0 {
        stream[n - 1].delta_start as int
    } else {
        decoded_column(stream, (n - 1) as nat) + stream[n - 1].delta_start
    }
}

/// A reader of the stream arrives at the position of every token: after
/// `n` entries it stands at the start of token `n - 1`.
pub proof fn lemma_stream_restores_positions(tokens: Seq<SemanticToken>, n: nat)
    requires
        positions_ascend(tokens),
        0 < n <= tokens.len(),
    ensures
        decoded_row(delta_encoded(tokens), n) == tokens[n - 1].row,
        decoded_column(delta_encoded(tokens), n) == tokens[n - 1].column,
    decreases n,
{
    let stream = delta_encoded(tokens);
    lemma_delta_encoding(tokens, n - 1);
    if n > 1 {
        lemma_stream_restores_positions(tokens, (n - 1) as nat);
        assert(not_after(tokens[n - 2].row, tokens[n - 2].column, tokens[n - 1]));
    } else {
        assert(decoded_row(stream, 0) == 0);
        assert(decoded_column(stream, 0) == 0);
    }
}

/// The tokens of `s` that start at byte `start`, in their order in `s`.
pub open spec fn starting_at(s: Seq<SemanticToken>, start: usize) -> Seq<SemanticToken> {
    s.filter(|t: SemanticToken| t.start_byte == start)
}

/// `sorted` holds the tokens of `tokens` by ascending start byte, tokens
/// with the same start byte in the order they had in `tokens`.
pub open spec fn sorted_by_start(tokens: Seq<SemanticToken>, sorted: Seq<SemanticToken>) -> bool {
    &&& sorted.to_multiset() == tokens.to_multiset()
    &&& forall|i: int, j: int|
        0 <= i <= j < sorted.len() ==> sorted[i].start_byte <= sorted[j].start_byte
    &&& forall|start: usize| #[trigger] starting_at(sorted, start) == starting_at(tokens, start)
}

/// Where some token of `s` starts at byte `start`, `s` holds one.
proof fn lemma_starting_at_member(s: Seq<SemanticToken>, start: usize)
    requires
        starting_at(s, start).len() > 0,
    ensures
        exists|i: int| 0 <= i < s.len() && (#[trigger] s[i]).start_byte == start,
    decreases s.len(),
{
    reveal(Seq::filter);
    if s.len() > 0 {
        if s.last().start_byte == start {
            assert(s[s.len() - 1].start_byte == start);
        } else {
            lemma_starting_at_member(s.drop_last(), start);
            let i = choose|i: int|
                0 <= i < s.drop_last().len() && (#[trigger] s.drop_last()[i]).start_byte == start;
            assert(s[i].start_byte == start);
        }
    }
}

/// Two sequences of equal length whose start bytes ascend, and which
/// hold the same tokens in the same order for every start byte, are the
/// same sequence.
proof fn lemma_same_order(a: Seq<SemanticToken>, b: Seq<SemanticToken>)
    requires
        a.len() == b.len(),
        forall|i: int, j: int| 0 <= i <= j < a.len() ==> a[i].start_byte <= a[j].start_byte,
        forall|i: int, j: int| 0 <= i <= j < b.len() ==> b[i].start_byte <= b[j].start_byte,
        forall|start: usize| #[trigger] starting_at(a, start) == starting_at(b, start),
    ensures
        a == b,
    decreases a.len(),
{
    reveal(Seq::filter);
    if a.len() == 0 {
        assert(a =~= b);
    } else {
        let a0 = a.drop_last();
        let b0 = b.drop_last();
        let ka = a.last().start_byte;
        let kb = b.last().start_byte;
        if ka != kb {
            // The later of the two start bytes occurs before the end of
            // the other sequence, behind which a smaller one follows.
            if ka < kb {
                assert(starting_at(b, kb) == starting_at(b0, kb).push(b.last()));
                assert(starting_at(a, kb) == starting_at(a0, kb));
                lemma_starting_at_member(a0, kb);
                let i = choose|i: int| 0 <= i < a0.len() && (#[trigger] a0[i]).start_byte == kb;
                assert(a[i].start_byte <= a[a.len() - 1].start_byte);
            } else {
                assert(starting_at(a, ka) == starting_at(a0, ka).push(a.last()));
                assert(starting_at(b, ka) == starting_at(b0, ka));
                lemma_starting_at_member(b0, ka);
                let i = choose|i: int| 0 <= i < b0.len() && (#[trigger] b0[i]).start_byte == ka;
                assert(b[i].start_byte <= b[b.len() - 1].start_byte);
            }
        }
        assert(starting_at(a, ka) == starting_at(a0, ka).push(a.last()));
        assert(starting_at(b, ka) == starting_at(b0, ka).push(b.last()));
        assert(starting_at(a, ka).last() == a.last());
        assert(starting_at(b, ka).last() == b.last());
        assert forall|start: usize| #[trigger] starting_at(a0, start) == starting_at(b0, start) by {
            if start == ka {
                assert(starting_at(a0, ka) =~= starting_at(a, ka).drop_last());
                assert(starting_at(b0, ka) =~= starting_at(b, ka).drop_last());
            } else {
                assert(starting_at(a, start) == starting_at(a0, start));
                assert(starting_at(b, start) == starting_at(b0, start));
            }
        }
        assert forall|i: int, j: int| 0 <= i <= j < a0.len() implies a0[i].start_byte
            <= a0[j].start_byte by {
            assert(a[i].start_byte <= a[j].start_byte);
        }
        assert forall|i: int, j: int| 0 <= i <= j < b0.len() implies b0[i].start_byte
            <= b0[j].start_byte by {
            assert(b[i].start_byte <= b[j].start_byte);
        }
        lemma_same_order(a0, b0);
        assert(a =~= a0.push(a.last()));
        assert(b =~= b0.push(b.last()));
    }
}

/// Tokens have one order by start byte: two sequences that both hold the
/// tokens sorted are the same.
pub proof fn lemma_sorted_by_start_unique(
    tokens: Seq<SemanticToken>,
    a: Seq<SemanticToken>,
    b: Seq<SemanticToken>,
)
    requires
        sorted_by_start(tokens, a),
        sorted_by_start(tokens, b),
    ensures
        a == b,
{
    a.to_multiset_ensures();
    b.to_multiset_ensures();
    assert(a.len() == b.len());
    assert forall|start: usize| #[trigger] starting_at(a, start) == starting_at(b, start) by {
        assert(starting_at(a, start) == starting_at(tokens, start));
        assert(starting_at(b, start) == starting_at(tokens, start));
    }
    lemma_same_order(a, b);
}

/// `sort_by_key` of std's slices with the start byte as key. It is
/// documented as a stable sort: afterwards the keys ascend, the elements are
/// those from before, and elements with equal keys keep their order.
#[verifier::external_body]
fn sort_by_start(tokens: &mut Vec<SemanticToken>)
    ensures
        sorted_by_start(old(tokens)@, final(tokens)@),
{
    tokens.sort_by_key(|t| t.start_byte);
}

/// Encodes tokens that are already in stream order. Fails when a token
/// starts before its predecessor, which has no relative form.
pub fn encode_in_order(tokens: &Vec<SemanticToken>) -> (stream: Option<Vec<EncodedToken>>)
    ensures
        stream is Some <==> positions_ascend(tokens@),
        stream matches Some(s) ==> s@ == delta_encoded(tokens@),
{
    let mut out: Vec<EncodedToken> = Vec::new();
    let mut row: u32 = 0;
    let mut column: u32 = 0;
    let mut i: usize = 0;
    while i < tokens.len()
        invariant
            i <= tokens.len(),
            row == row_before(tokens@, i as int),
            column == column_before(tokens@, i as int),
            out@.len() == i,
            forall|k: int|
                0 <= k < i ==> not_after(
                    row_before(tokens@, k),
                    column_before(tokens@, k),
                    #[trigger] tokens@[k],
                ),
            forall|k: int| 0 <= k < i ==> out@[k] == delta_encoded(tokens@)[k],
        decreases tokens.len() - i,
    {
        let t = tokens[i];
        if t.row < row || (t.row == row && t.column < column) {
            assert(!not_after(row_before(tokens@, i as int), column_before(tokens@, i as int),
                tokens@[i as int]));
            return None;
        }
        let delta_start: u32 = if t.row == row {
            t.column - column
        } else {
            t.column
        };
        out.push(
            EncodedToken {
                delta_line: t.row - row,
                delta_start,
                length: t.length,
                token_type: t.token_type.index(),
                token_modifiers_bitset: 0,
            },
        );
        row = t.row;
        column = t.column;
        i += 1;
    }
    assert(out@ =~= delta_encoded(tokens@));
    Some(out)
}

/// The tokens in the order of their start bytes, tokens with the same
/// start byte in the order given.
pub open spec fn by_start(tokens: Seq<SemanticToken>) -> Seq<SemanticToken> {
    choose|sorted: Seq<SemanticToken>| sorted_by_start(tokens, sorted)
}

/// Tokens whose start bytes ascend are in order already.
pub proof fn lemma_by_start_of_sorted(tokens: Seq<SemanticToken>)
    requires
        forall|i: int, j: int|
            0 <= i <= j < tokens.len() ==> tokens[i].start_byte <= tokens[j].start_byte,
    ensures
        by_start(tokens) == tokens,
{
    assert(sorted_by_start(tokens, tokens));
    lemma_sorted_by_start_unique(tokens, tokens, by_start(tokens));
}

/// The relative token stream of a highlighting answer: the tokens are put
/// in order of their start byte and each is expressed relative to the one
/// before it. Fails when, in that order, a token starts before its
/// predecessor.
pub fn encode_tokens(tokens: Vec<SemanticToken>) -> (stream: Option<Vec<EncodedToken>>)
    ensures
        sorted_by_start(tokens@, by_start(tokens@)),
        stream is Some <==> positions_ascend(by_start(tokens@)),
        stream matches Some(s) ==> s@ == delta_encoded(by_start(tokens@)),
{
    let mut tokens = tokens;
    let ghost given = tokens@;
    sort_by_start(&mut tokens);
    proof {
        assert(sorted_by_start(given, tokens@));
        lemma_sorted_by_start_unique(given, tokens@, by_start(given));
    }
    encode_in_order(&tokens)
}

} // verus!
