use abap_lsp::backend::{encode_in_order, encode_tokens, EncodedToken};
use abap_lsp::tokens::{SemanticToken, TokenModifier, TokenType};

fn token(start_byte: usize, row: u32, column: u32, length: u32, token_type: TokenType) -> SemanticToken {
    SemanticToken {
        start_byte,
        row,
        column,
        length,
        token_type,
        token_modifiers_bitset: TokenModifier::NoModifier,
    }
}

fn entry(delta_line: u32, delta_start: u32, length: u32, token_type: u32) -> EncodedToken {
    EncodedToken { delta_line, delta_start, length, token_type, token_modifiers_bitset: 0 }
}

#[test]
fn tokens_on_one_line_are_relative_in_column() {
    let tokens = vec![
        token(0, 0, 0, 6, TokenType::Keyword),
        token(7, 0, 7, 6, TokenType::Variable),
    ];
    assert_eq!(encode_tokens(tokens), Some(vec![entry(0, 0, 6, 1), entry(0, 7, 6, 0)]));
}

#[test]
fn token_on_a_later_line_keeps_its_column() {
    let tokens = vec![
        token(0, 0, 0, 6, TokenType::Keyword),
        token(10, 1, 3, 4, TokenType::Number),
    ];
    assert_eq!(encode_tokens(tokens), Some(vec![entry(0, 0, 6, 1), entry(1, 3, 4, 2)]));
}

#[test]
fn first_token_is_relative_to_the_origin() {
    let tokens = vec![token(25, 2, 5, 3, TokenType::Comment)];
    assert_eq!(encode_tokens(tokens), Some(vec![entry(2, 5, 3, 5)]));
}

#[test]
fn column_difference_on_the_same_line() {
    let tokens = vec![
        token(12, 1, 2, 3, TokenType::Type),
        token(20, 1, 10, 2, TokenType::Operator),
        token(40, 3, 1, 1, TokenType::String),
    ];
    assert_eq!(
        encode_tokens(tokens),
        Some(vec![entry(1, 2, 3, 4), entry(0, 8, 2, 6), entry(2, 1, 1, 3)])
    );
}

#[test]
fn tokens_are_sorted_by_start_byte_first() {
    let tokens = vec![
        token(10, 1, 3, 4, TokenType::Number),
        token(0, 0, 0, 6, TokenType::Keyword),
    ];
    assert_eq!(encode_tokens(tokens), Some(vec![entry(0, 0, 6, 1), entry(1, 3, 4, 2)]));
}

#[test]
fn tokens_with_the_same_start_keep_their_order() {
    let tokens = vec![
        token(4, 0, 4, 3, TokenType::Type),
        token(0, 0, 0, 2, TokenType::Keyword),
        token(4, 0, 4, 1, TokenType::Variable),
    ];
    assert_eq!(
        encode_tokens(tokens),
        Some(vec![entry(0, 0, 2, 1), entry(0, 4, 3, 4), entry(0, 0, 1, 0)])
    );
}

#[test]
fn no_tokens_give_an_empty_stream() {
    assert_eq!(encode_tokens(Vec::new()), Some(Vec::new()));
}

#[test]
fn a_token_before_its_predecessor_has_no_relative_form() {
    let rows_descend = vec![
        token(0, 1, 0, 2, TokenType::Keyword),
        token(5, 0, 5, 2, TokenType::Keyword),
    ];
    assert_eq!(encode_tokens(rows_descend), None);
    let columns_descend = vec![
        token(0, 0, 5, 2, TokenType::Keyword),
        token(5, 0, 4, 2, TokenType::Keyword),
    ];
    assert_eq!(encode_tokens(columns_descend), None);
}

#[test]
fn encode_in_order_does_not_sort() {
    let tokens = vec![
        token(10, 0, 7, 6, TokenType::Variable),
        token(0, 1, 0, 6, TokenType::Keyword),
    ];
    assert_eq!(encode_in_order(&tokens), Some(vec![entry(0, 7, 6, 0), entry(1, 0, 6, 1)]));
    let tokens = vec![
        token(0, 1, 0, 6, TokenType::Keyword),
        token(10, 0, 7, 6, TokenType::Variable),
    ];
    assert_eq!(encode_in_order(&tokens), None);
}
