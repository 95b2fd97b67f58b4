use rlox::error::Diagnostic;
use rlox::scanner::Scanner;
use rlox::token::{token_type, Token};

fn scan(src: &str) -> (Vec<Token>, Vec<Diagnostic>) {
    let mut s = Scanner::new(src.to_string());
    s.scan_tokens();
    (s.tokens, s.diagnostics)
}

fn expect_single(src: &str, kind: token_type) {
    let (tokens, diags) = scan(src);
    assert_eq!(diags.len(), 0, "no error expected for {:?}", src);
    assert_eq!(tokens.len(), 2, "one token plus end-marker for {:?}", src);
    assert_eq!(tokens[0].token_type, kind);
    assert_eq!(tokens[0].lexeme, src);
    assert_eq!(tokens[0].literal, "");
    assert_eq!(tokens[0].line, 1);
    assert_eq!(tokens[1].token_type, token_type::EOF);
    assert_eq!(tokens[1].lexeme, "");
}

#[test]
fn single_token_punctuation() {
    expect_single("(", token_type::LEFT_PAREN);
    expect_single(")", token_type::RIGHT_PAREN);
    expect_single("{", token_type::LEFT_BRACE);
    expect_single("}", token_type::RIGHT_BRACE);
    expect_single(",", token_type::COMMA);
    expect_single(".", token_type::DOT);
    expect_single("-", token_type::MINUS);
    expect_single("+", token_type::PLUS);
    expect_single(";", token_type::SEMICOLON);
    expect_single("/", token_type::SLASH);
    expect_single("*", token_type::STAR);
}

#[test]
fn single_token_operators() {
    expect_single("!", token_type::BANG);
    expect_single("!=", token_type::BANG_EQUAL);
    expect_single("=", token_type::EQUAL);
    expect_single("==", token_type::EQUAL_EQUAL);
    expect_single("<", token_type::LESS);
    expect_single("<=", token_type::LESS_EQUAL);
    expect_single(">", token_type::GREATER);
    expect_single(">=", token_type::GREATER_EQUAL);
}

#[test]
fn single_token_keywords() {
    expect_single("and", token_type::AND);
    expect_single("class", token_type::CLASS);
    expect_single("else", token_type::ELSE);
    expect_single("false", token_type::FALSE);
    expect_single("fun", token_type::FUN);
    expect_single("for", token_type::FOR);
    expect_single("if", token_type::IF);
    expect_single("or", token_type::OR);
    expect_single("print", token_type::PRINT);
    expect_single("return", token_type::RETURN);
    expect_single("super", token_type::SUPER);
    expect_single("this", token_type::THIS);
    expect_single("true", token_type::TRUE);
    expect_single("var", token_type::VAR);
    expect_single("while", token_type::WHILE);
}

#[test]
fn comment_only_line() {
    let (tokens, diags) = scan("// comment only\n");
    assert_eq!(diags.len(), 0);
    assert_eq!(tokens.len(), 1);
    assert_eq!(tokens[0].token_type, token_type::EOF);
    assert_eq!(tokens[0].line, 2);
}

#[test]
fn comment_to_end_of_input() {
    let (tokens, diags) = scan("// no trailing newline");
    assert_eq!(diags.len(), 0);
    assert_eq!(tokens.len(), 1);
    assert_eq!(tokens[0].token_type, token_type::EOF);
    assert_eq!(tokens[0].line, 1);
}

#[test]
fn unterminated_string() {
    let (tokens, diags) = scan("\"abc");
    assert_eq!(diags.len(), 1);
    assert_eq!(diags[0].message, "Unterminated string.");
    assert_eq!(diags[0].line, 1);
    assert_eq!(tokens.last().unwrap().token_type, token_type::EOF);
}

#[test]
fn string_literal_body() {
    let (tokens, diags) = scan("\"abc\"");
    assert_eq!(diags.len(), 0);
    assert_eq!(tokens.len(), 2);
    assert_eq!(tokens[0].token_type, token_type::STRING);
    assert_eq!(tokens[0].lexeme, "\"abc\"");
    assert_eq!(tokens[0].literal, "abc");
}

#[test]
fn string_with_embedded_newline() {
    let (tokens, diags) = scan("\"a\nb\"");
    assert_eq!(diags.len(), 0);
    assert_eq!(tokens[0].token_type, token_type::STRING);
    assert_eq!(tokens[0].literal, "a\nb");
    assert_eq!(tokens[0].line, 2);
    assert_eq!(tokens[1].token_type, token_type::EOF);
    assert_eq!(tokens[1].line, 2);
}

#[test]
fn number_with_fraction() {
    let (tokens, diags) = scan("12.5");
    assert_eq!(diags.len(), 0);
    assert_eq!(tokens.len(), 2);
    assert_eq!(tokens[0].token_type, token_type::NUMBER);
    assert_eq!(tokens[0].lexeme, "12.5");
    assert_eq!(tokens[0].literal, "12.5");
}

#[test]
fn number_with_trailing_dot_splits() {
    let (tokens, diags) = scan("12.");
    assert_eq!(diags.len(), 0);
    assert_eq!(tokens.len(), 3);
    assert_eq!(tokens[0].token_type, token_type::NUMBER);
    assert_eq!(tokens[0].lexeme, "12");
    assert_eq!(tokens[1].token_type, token_type::DOT);
}

#[test]
fn number_with_leading_dot_splits() {
    let (tokens, diags) = scan(".5");
    assert_eq!(diags.len(), 0);
    assert_eq!(tokens.len(), 3);
    assert_eq!(tokens[0].token_type, token_type::DOT);
    assert_eq!(tokens[1].token_type, token_type::NUMBER);
    assert_eq!(tokens[1].lexeme, "5");
}

#[test]
fn nil_is_not_in_the_keyword_table() {
    let (tokens, diags) = scan("nil");
    assert_eq!(diags.len(), 0);
    assert_eq!(tokens.len(), 2);
    assert_eq!(tokens[0].token_type, token_type::IDENTIFIER);
    assert_eq!(tokens[0].lexeme, "nil");
}

#[test]
fn keyword_prefix_is_identifier() {
    let (tokens, diags) = scan("classify");
    assert_eq!(diags.len(), 0);
    assert_eq!(tokens.len(), 2);
    assert_eq!(tokens[0].token_type, token_type::IDENTIFIER);
    assert_eq!(tokens[0].lexeme, "classify");
}

#[test]
fn identifier_with_underscore_and_digits() {
    let (tokens, diags) = scan("_foo_2bar");
    assert_eq!(diags.len(), 0);
    assert_eq!(tokens.len(), 2);
    assert_eq!(tokens[0].token_type, token_type::IDENTIFIER);
    assert_eq!(tokens[0].lexeme, "_foo_2bar");
}

#[test]
fn unexpected_character_is_skipped() {
    let (tokens, diags) = scan("@");
    assert_eq!(diags.len(), 1);
    assert_eq!(diags[0].message, "Unexpected character.");
    assert_eq!(diags[0].line, 1);
    assert_eq!(tokens.len(), 1);
    assert_eq!(tokens[0].token_type, token_type::EOF);
}

#[test]
fn multiple_lexical_errors_all_reported() {
    let (tokens, diags) = scan("@ # $");
    assert_eq!(diags.len(), 3);
    assert_eq!(tokens.len(), 1);
    assert_eq!(tokens[0].token_type, token_type::EOF);
}

#[test]
fn lexemes_are_exact_source_slices() {
    let src = "foo + 12.5 <= \"hi\"";
    let (tokens, diags) = scan(src);
    assert_eq!(diags.len(), 0);
    assert_eq!(tokens[0].lexeme, &src[0..3]);
    assert_eq!(tokens[1].lexeme, &src[4..5]);
    assert_eq!(tokens[2].lexeme, &src[6..10]);
    assert_eq!(tokens[3].lexeme, &src[11..13]);
    assert_eq!(tokens[4].lexeme, &src[14..18]);
    assert_eq!(tokens[5].lexeme, "");
    assert_eq!(tokens[5].token_type, token_type::EOF);
}

#[test]
fn line_counting_across_newlines() {
    let (tokens, diags) = scan("\n\n+");
    assert_eq!(diags.len(), 0);
    assert_eq!(tokens.len(), 2);
    assert_eq!(tokens[0].token_type, token_type::PLUS);
    assert_eq!(tokens[0].line, 3);
}

#[test]
fn whitespace_produces_no_tokens() {
    let (tokens, diags) = scan(" \t\r ");
    assert_eq!(diags.len(), 0);
    assert_eq!(tokens.len(), 1);
    assert_eq!(tokens[0].token_type, token_type::EOF);
}

#[test]
fn empty_source_yields_end_marker_only() {
    let (tokens, diags) = scan("");
    assert_eq!(diags.len(), 0);
    assert_eq!(tokens.len(), 1);
    assert_eq!(tokens[0].token_type, token_type::EOF);
    assert_eq!(tokens[0].line, 1);
}

#[test]
fn scanning_twice_is_identical() {
    let src = "var answer = 6 * 7; // trailing\n\"and @\"";
    let (t1, d1) = scan(src);
    let (t2, d2) = scan(src);
    assert_eq!(t1, t2);
    assert_eq!(d1, d2);
}

#[test]
fn scanning_twice_is_identical_with_errors() {
    let src = "@ \"open";
    let (t1, d1) = scan(src);
    let (t2, d2) = scan(src);
    assert_eq!(t1, t2);
    assert_eq!(d1, d2);
}

#[test]
fn stream_wf_check() {
    let (tokens, _) = scan("1 + 2");
    assert!(rlox::token::stream_is_wf(&tokens));
    let empty: Vec<Token> = Vec::new();
    assert!(!rlox::token::stream_is_wf(&empty));
}

#[test]
fn error_builds_diagnostic() {
    let d = rlox::error::error(3, "boom");
    assert_eq!(d.line, 3);
    assert_eq!(d.location, "");
    assert_eq!(d.message, "boom");
}

#[test]
fn token_error_names_lexeme_or_end() {
    let t = Token::new("".to_string(), 2, token_type::PLUS, "+".to_string());
    let d = rlox::error::token_error(&t, "bad");
    assert_eq!(d.line, 2);
    assert_eq!(d.location, " at '+'");
    assert_eq!(d.message, "bad");
    let e = Token::new("".to_string(), 5, token_type::EOF, "".to_string());
    let d2 = rlox::error::token_error(&e, "bad");
    assert_eq!(d2.line, 5);
    assert_eq!(d2.location, " at end");
}
