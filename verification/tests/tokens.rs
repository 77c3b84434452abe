use abap_lsp::syntax::parser::Capture;
use abap_lsp::tokens::{
    tokens_from_captures, SemanticToken, TokenError, TokenModifier, TokenType,
};

fn capture(name: &str, start_byte: usize, end_byte: usize, row: usize, column: usize) -> Capture {
    Capture { name: name.to_owned(), start_byte, end_byte, row, column }
}

#[test]
fn token_type_indices_follow_the_legend() {
    let names = TokenType::names();
    assert_eq!(
        names,
        vec!["variable", "keyword", "number", "string", "type", "comment", "operator"]
    );
    for (i, name) in names.iter().enumerate() {
        assert_eq!(TokenType::from_name(name).index() as usize, i);
    }
    assert_eq!(TokenType::all().len(), 7);
    assert_eq!(TokenType::Comment.index(), 5);
    assert_eq!(TokenType::Operator.index(), 6);
}

#[test]
fn from_name_finds_each_category() {
    assert_eq!(TokenType::from_name("variable"), TokenType::Variable);
    assert_eq!(TokenType::from_name("keyword"), TokenType::Keyword);
    assert_eq!(TokenType::from_name("number"), TokenType::Number);
    assert_eq!(TokenType::from_name("string"), TokenType::String);
    assert_eq!(TokenType::from_name("type"), TokenType::Type);
    assert_eq!(TokenType::from_name("comment"), TokenType::Comment);
    assert_eq!(TokenType::from_name("operator"), TokenType::Operator);
}

#[test]
fn try_from_name_rejects_unknown_names() {
    assert_eq!(TokenType::try_from_name("label"), None);
    assert_eq!(TokenType::try_from_name(""), None);
    assert_eq!(TokenType::try_from_name("Keyword"), None);
    assert_eq!(TokenType::try_from_name("keyword"), Some(TokenType::Keyword));
}

#[test]
fn captures_become_tokens_in_order() {
    let captures = vec![capture("keyword", 0, 4, 0, 0), capture("variable", 5, 12, 0, 5)];
    let tokens = tokens_from_captures(&captures, TokenModifier::NoModifier).unwrap();
    assert_eq!(
        tokens,
        vec![
            SemanticToken {
                start_byte: 0,
                row: 0,
                column: 0,
                length: 4,
                token_type: TokenType::Keyword,
                token_modifiers_bitset: TokenModifier::NoModifier,
            },
            SemanticToken {
                start_byte: 5,
                row: 0,
                column: 5,
                length: 7,
                token_type: TokenType::Variable,
                token_modifiers_bitset: TokenModifier::NoModifier,
            },
        ]
    );
}

#[test]
fn no_captures_give_no_tokens() {
    assert_eq!(tokens_from_captures(&Vec::new(), TokenModifier::Declaration), Ok(Vec::new()));
}

#[test]
fn unknown_capture_name_is_reported() {
    let captures = vec![capture("keyword", 0, 4, 0, 0), capture("label", 5, 6, 0, 5)];
    assert_eq!(
        tokens_from_captures(&captures, TokenModifier::NoModifier),
        Err(TokenError::UnknownCapture)
    );
}

#[test]
fn capture_out_of_range_is_reported() {
    let reversed = vec![capture("keyword", 4, 0, 0, 0)];
    assert_eq!(
        tokens_from_captures(&reversed, TokenModifier::NoModifier),
        Err(TokenError::OutOfRange)
    );
}

#[test]
fn first_failing_capture_decides_the_error() {
    let captures = vec![capture("keyword", 4, 0, 0, 0), capture("label", 5, 6, 0, 5)];
    assert_eq!(
        tokens_from_captures(&captures, TokenModifier::NoModifier),
        Err(TokenError::OutOfRange)
    );
    let captures = vec![capture("label", 5, 6, 0, 5), capture("keyword", 4, 0, 0, 0)];
    assert_eq!(
        tokens_from_captures(&captures, TokenModifier::NoModifier),
        Err(TokenError::UnknownCapture)
    );
}
