use abap_lsp::backend::{encode_tokens, EncodedToken};
use abap_lsp::document::{CacheControlled, DocumentError, SourceCodeDocument, TextChange};
use abap_lsp::edits::Position;
use abap_lsp::syntax::cst::SyntaxTree;
use abap_lsp::syntax::cst::highlight;
use abap_lsp::syntax::parser::{
    load_parser, load_query, parse_with, parser_if_accepted, query_if_compiled, SyntaxError,
};
use abap_lsp::tokens::{SemanticToken, TokenError, TokenModifier, TokenType};
use tree_sitter::{Language, Parser, Query};

const HIGHLIGHTS: &str = "(string) @string (number) @number [(true) (false) (null)] @keyword";

fn language() -> Language {
    tree_sitter_json::LANGUAGE.into()
}

fn query() -> Query {
    load_query(&language(), HIGHLIGHTS).unwrap()
}

fn open(content: &str) -> SourceCodeDocument {
    SourceCodeDocument::fetch(
        "adt://a4h/zprog",
        "/sap/bc/adt/programs/programs/zprog",
        &CacheControlled::Modified(content.to_owned()),
        &language(),
    )
    .unwrap()
}

fn change(start: (u32, u32), end: (u32, u32), text: &str) -> TextChange {
    TextChange {
        range: Some((
            Position { line: start.0, character: start.1 },
            Position { line: end.0, character: end.1 },
        )),
        text: text.to_owned(),
    }
}

fn token(start_byte: usize, row: u32, column: u32, length: u32, token_type: TokenType) -> SemanticToken {
    SemanticToken {
        start_byte,
        row,
        column,
        length,
        token_type,
        token_modifiers_bitset: TokenModifier::NoModifier,
    }
}

#[test]
fn fetch_keeps_uris_and_content() {
    let document = open("[1, true]");
    assert_eq!(document.vfs_uri(), "adt://a4h/zprog");
    assert_eq!(document.adt_uri(), "/sap/bc/adt/programs/programs/zprog");
    assert_eq!(document.raw_content(), "[1, true]");
}

#[test]
fn fetch_without_source_is_a_stale_cache() {
    let result = SourceCodeDocument::fetch("a", "b", &CacheControlled::Unmodified, &language());
    assert!(matches!(result, Err(DocumentError::StaleCache)));
}

#[test]
fn from_parsed_without_tree_is_a_parse_failure() {
    let result = SourceCodeDocument::from_parsed("a", "b", "[]", Err(SyntaxError::ParseFailed));
    assert!(matches!(result, Err(DocumentError::Syntax(SyntaxError::ParseFailed))));
    let tree = parse_with(&language(), "[1]", None);
    let document = SourceCodeDocument::from_parsed("a", "b", "[1]", tree).unwrap();
    assert_eq!(document.raw_content(), "[1]");
    assert_eq!(document.semantic_tokens(&query()).unwrap().len(), 1);
}

#[test]
fn refresh_replaces_the_content() {
    let mut document = open("[1]");
    document.apply_client_edit(&change((0, 1), (0, 2), "22")).unwrap();
    assert_eq!(
        document.refresh(&CacheControlled::Modified("[3]".to_owned()), &language()),
        Ok(())
    );
    assert_eq!(document.raw_content(), "[3]");
    assert_eq!(document.vfs_uri(), "adt://a4h/zprog");
    assert_eq!(
        document.refresh(&CacheControlled::Unmodified, &language()),
        Err(DocumentError::StaleCache)
    );
    assert_eq!(document.raw_content(), "[3]");
}

#[test]
fn edit_replaces_a_range() {
    let mut document = open("[1, true]");
    assert_eq!(document.apply_client_edit(&change((0, 4), (0, 8), "null")), Ok(()));
    assert_eq!(document.raw_content(), "[1, null]");
}

#[test]
fn edit_inserts_and_deletes() {
    let mut document = open("[1]");
    assert_eq!(document.apply_client_edit(&change((0, 2), (0, 2), ", 2")), Ok(()));
    assert_eq!(document.raw_content(), "[1, 2]");
    assert_eq!(document.apply_client_edit(&change((0, 1), (0, 4), "")), Ok(()));
    assert_eq!(document.raw_content(), "[2]");
}

#[test]
fn edit_without_range_replaces_the_document() {
    let mut document = open("[1,\n 2]\n");
    let whole = TextChange { range: None, text: "{\"a\": 1}".to_owned() };
    assert_eq!(document.apply_client_edit(&whole), Ok(()));
    assert_eq!(document.raw_content(), "{\"a\": 1}");
    let empty = TextChange { range: None, text: String::new() };
    assert_eq!(document.apply_client_edit(&empty), Ok(()));
    assert_eq!(document.raw_content(), "");
}

#[test]
fn edits_of_a_batch_see_the_text_left_by_the_one_before() {
    let mut document = open("[1]");
    document.apply_client_edit(&change((0, 2), (0, 2), ",\n2")).unwrap();
    document.apply_client_edit(&change((1, 1), (1, 1), ", 3")).unwrap();
    assert_eq!(document.raw_content(), "[1,\n2, 3]");
}

#[test]
fn edit_across_lines_and_wide_characters() {
    let mut document = open("[\"a\u{20AC}\",\n \"\u{1F600}\"]");
    // From behind the euro sign to behind the emoji, which is two units wide.
    assert_eq!(document.apply_client_edit(&change((0, 4), (1, 4), "")), Ok(()));
    assert_eq!(document.raw_content(), "[\"a\u{20AC}\"]");
}

#[test]
fn invalid_positions_change_nothing() {
    let mut document = open("[\"\u{1F600}\"]");
    // Ends between the two code units of the emoji.
    assert_eq!(
        document.apply_client_edit(&change((0, 0), (0, 3), "x")),
        Err(DocumentError::InvalidPosition)
    );
    // Line outside the buffer.
    assert_eq!(
        document.apply_client_edit(&change((1, 0), (1, 0), "x")),
        Err(DocumentError::InvalidPosition)
    );
    // Column beyond the line.
    assert_eq!(
        document.apply_client_edit(&change((0, 0), (0, 40), "x")),
        Err(DocumentError::InvalidPosition)
    );
    // End before start.
    assert_eq!(
        document.apply_client_edit(&change((0, 4), (0, 1), "x")),
        Err(DocumentError::InvalidPosition)
    );
    assert_eq!(document.raw_content(), "[\"\u{1F600}\"]");
}

#[test]
fn tokens_of_a_document() {
    let document = open("[1, true,\n \"x\"]");
    let mut tokens = document.semantic_tokens(&query()).unwrap();
    tokens.sort_by_key(|t| t.start_byte);
    assert_eq!(
        tokens,
        vec![
            token(1, 0, 1, 1, TokenType::Number),
            token(4, 0, 4, 4, TokenType::Keyword),
            token(11, 1, 1, 3, TokenType::String),
        ]
    );
    assert_eq!(
        encode_tokens(tokens),
        Some(vec![
            EncodedToken { delta_line: 0, delta_start: 1, length: 1, token_type: 2, token_modifiers_bitset: 0 },
            EncodedToken { delta_line: 0, delta_start: 3, length: 4, token_type: 1, token_modifiers_bitset: 0 },
            EncodedToken { delta_line: 1, delta_start: 1, length: 3, token_type: 3, token_modifiers_bitset: 0 },
        ])
    );
}

#[test]
fn capture_names_outside_the_legend_are_reported() {
    let document = open("{\"a\": 1}");
    let query = load_query(&language(), "(pair key: (string) @property)").unwrap();
    assert_eq!(document.semantic_tokens(&query), Err(TokenError::UnknownCapture));
}

#[test]
fn incremental_edits_and_one_reparse_give_the_tokens_of_a_fresh_parse() {
    let mut document = open("[1, true,\n \"x\"]");
    let changes = vec![
        change((0, 1), (0, 2), "\"\u{1F600}\""),
        change((1, 1), (1, 4), "null, 12.5"),
        change((0, 0), (0, 0), "\n"),
        change((2, 11), (2, 11), ", false"),
    ];
    for change in &changes {
        document.apply_client_edit(change).unwrap();
    }
    assert_eq!(document.reparse(&language()), Ok(()));
    let content = document.raw_content();
    assert_eq!(content, "\n[\"\u{1F600}\", true,\n null, 12.5, false]");
    let fresh = open(&content);
    assert_eq!(document.semantic_tokens(&query()), fresh.semantic_tokens(&query()));
    assert_eq!(document.semantic_tokens(&query()).unwrap().len(), 5);
}

#[test]
fn whole_document_replace_and_reparse() {
    let mut document = open("[1]");
    let whole = TextChange { range: None, text: "[true, false]".to_owned() };
    document.apply_client_edit(&whole).unwrap();
    document.reparse(&language()).unwrap();
    let fresh = open("[true, false]");
    assert_eq!(document.semantic_tokens(&query()), fresh.semantic_tokens(&query()));
    assert_eq!(
        document.semantic_tokens(&query()).unwrap(),
        vec![token(1, 0, 1, 4, TokenType::Keyword), token(7, 0, 7, 5, TokenType::Keyword)]
    );
}

#[test]
fn syntax_tree_tokens_are_declarations() {
    let tree = SyntaxTree::parse("[7]", &language()).unwrap();
    assert_eq!(
        tree.semantic_tokens(&query()),
        Ok(vec![SemanticToken {
            start_byte: 1,
            row: 0,
            column: 1,
            length: 1,
            token_type: TokenType::Number,
            token_modifiers_bitset: TokenModifier::Declaration,
        }])
    );
    assert!(matches!(
        SyntaxTree::from_parsed("[7]", Err(SyntaxError::ParseFailed)),
        Err(SyntaxError::ParseFailed)
    ));
}

#[test]
fn parser_and_query_loading() {
    assert!(load_parser(&language()).is_ok());
    assert!(load_query(&language(), HIGHLIGHTS).is_ok());
    assert!(matches!(
        load_query(&language(), "(no_such_node) @string"),
        Err(SyntaxError::InvalidQuery)
    ));
}

#[test]
fn batch_of_edits_takes_one_parse() {
    let mut document = open("[1, true,\n \"x\"]");
    let changes = vec![
        change((0, 1), (0, 2), "\"\u{1F600}\""),
        change((1, 1), (1, 4), "null, 12.5"),
        change((0, 0), (0, 0), "\n"),
        change((2, 11), (2, 11), ", false"),
    ];
    assert_eq!(document.apply_client_edits(&changes, &language()), Ok(()));
    let content = document.raw_content();
    assert_eq!(content, "\n[\"\u{1F600}\", true,\n null, 12.5, false]");
    assert_eq!(document.semantic_tokens(&query()), open(&content).semantic_tokens(&query()));
}

#[test]
fn batch_ends_at_the_first_rejected_edit() {
    let mut document = open("[1]");
    let changes = vec![
        change((0, 1), (0, 2), "2"),
        change((3, 0), (3, 0), "x"),
        change((0, 1), (0, 2), "3"),
    ];
    assert_eq!(
        document.apply_client_edits(&changes, &language()),
        Err(DocumentError::InvalidPosition)
    );
    assert_eq!(document.raw_content(), "[2]");
    assert_eq!(document.semantic_tokens(&query()), open("[2]").semantic_tokens(&query()));
    assert_eq!(document.apply_client_edits(&Vec::new(), &language()), Ok(()));
    assert_eq!(document.raw_content(), "[2]");
}

#[test]
fn edits_behind_wide_characters_give_the_tokens_of_a_fresh_parse() {
    let mut document = open("[\"\u{20AC}\u{20AC}\u{20AC}\", 1,\n true, \"\u{1F600}\", 5, 6]");
    document.apply_client_edit(&change((1, 13), (1, 14), "7,\n8")).unwrap();
    document.apply_client_edit(&change((0, 8), (0, 9), "22")).unwrap();
    document.reparse(&language()).unwrap();
    let content = document.raw_content();
    assert_eq!(
        content,
        "[\"\u{20AC}\u{20AC}\u{20AC}\", 22,\n true, \"\u{1F600}\", 7,\n8, 6]"
    );
    let tokens = document.semantic_tokens(&query());
    assert_eq!(tokens, open(&content).semantic_tokens(&query()));
    assert_eq!(tokens.unwrap().len(), 7);
}

#[test]
fn refused_grammar_and_missing_query_are_failures() {
    assert!(parser_if_accepted(Parser::new(), true).is_ok());
    assert!(matches!(
        parser_if_accepted(Parser::new(), false),
        Err(SyntaxError::IncompatibleGrammar)
    ));
    assert!(query_if_compiled(Some(query())).is_ok());
    assert!(matches!(query_if_compiled(None), Err(SyntaxError::InvalidQuery)));
}

#[test]
fn syntax_tree_of_a_text() {
    let tree = SyntaxTree::parse("[1, 2]", &language());
    assert!(tree.is_ok());
    assert_eq!(tree.unwrap().semantic_tokens(&query()).unwrap().len(), 2);
}

#[test]
fn tree_beyond_the_text_is_out_of_range() {
    // A query that reads the text of the nodes it meets.
    let reading = load_query(&language(), "((string) @string (#eq? @string \"\\\"x\\\"\"))").unwrap();
    let long = "[1, 2, 3, \"x\"]";
    let tree = parse_with(&language(), long, None).unwrap();
    assert_eq!(
        highlight(&reading, &tree, long, TokenModifier::NoModifier).map(|tokens| tokens.len()),
        Ok(1)
    );
    assert_eq!(
        highlight(&reading, &tree, "[1]", TokenModifier::NoModifier),
        Err(TokenError::OutOfRange)
    );
    let mismatched = SyntaxTree::new(tree, "[1]".to_owned());
    assert_eq!(mismatched.semantic_tokens(&reading), Err(TokenError::OutOfRange));
}

#[test]
fn highlighting_twice_gives_the_same_tokens() {
    let document = open("[1, true,\n \"x\"]");
    let first = document.semantic_tokens(&query());
    assert_eq!(first, document.semantic_tokens(&query()));
    assert_eq!(first.unwrap().len(), 3);
}

#[test]
fn reparse_without_edits_keeps_the_tokens() {
    let mut document = open("[1, true]");
    let before = document.semantic_tokens(&query());
    assert_eq!(document.reparse(&language()), Ok(()));
    assert_eq!(document.raw_content(), "[1, true]");
    assert_eq!(document.semantic_tokens(&query()), before);
}

#[test]
fn refresh_reads_the_source_of_the_object_past_caches() {
    let document = open("[1]");
    let request = document.source_request();
    assert_eq!(request.object_uri(), "/sap/bc/adt/programs/programs/zprog");
    assert_eq!(request.url(), "/sap/bc/adt/programs/programs/zprog/source/main");
    let headers = request.headers().unwrap();
    assert_eq!(headers.get("cache-control").unwrap().to_str().unwrap(), "no-cache");
    assert!(headers.get("if-none-match").is_none());
}
