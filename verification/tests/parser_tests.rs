use rlox::error::Diagnostic;
use rlox::expr::{Expr, Literal};
use rlox::parser::Parser;
use rlox::scanner::Scanner;
use rlox::token::{token_type, Token};

fn parse(src: &str) -> Result<Expr, Diagnostic> {
    let mut s = Scanner::new(src.to_string());
    s.scan_tokens();
    assert!(rlox::token::stream_is_wf(&s.tokens));
    let mut p = Parser::new(s.tokens);
    p.parse()
}

fn num(text: &str) -> Expr {
    Expr::Literal(Literal::Number(text.to_string()))
}

fn op(kind: token_type, lexeme: &str) -> Token {
    Token::new("".to_string(), 1, kind, lexeme.to_string())
}

fn binary(l: Expr, o: Token, r: Expr) -> Expr {
    Expr::Binary(Box::new(l), o, Box::new(r))
}

#[test]
fn subtraction_is_left_associative() {
    let got = parse("1 - 2 - 3").unwrap();
    let want = binary(
        binary(num("1"), op(token_type::MINUS, "-"), num("2")),
        op(token_type::MINUS, "-"),
        num("3"),
    );
    assert_eq!(got, want);
}

#[test]
fn multiplication_binds_tighter_than_addition() {
    let got = parse("2 + 3 * 4").unwrap();
    let want = binary(
        num("2"),
        op(token_type::PLUS, "+"),
        binary(num("3"), op(token_type::STAR, "*"), num("4")),
    );
    assert_eq!(got, want);
}

#[test]
fn grouping_is_preserved_as_a_node() {
    let got = parse("(1 + 2) * 3").unwrap();
    let want = binary(
        Expr::Grouping(Box::new(binary(num("1"), op(token_type::PLUS, "+"), num("2")))),
        op(token_type::STAR, "*"),
        num("3"),
    );
    assert_eq!(got, want);
}

#[test]
fn missing_close_paren_is_reported() {
    let r = parse("(1 + 2");
    let d = r.unwrap_err();
    assert_eq!(d.message, "Expect ')' after expression.");
    assert_eq!(d.location, " at end");
}

#[test]
fn lone_close_paren_is_unexpected_token() {
    let r = parse(")");
    let d = r.unwrap_err();
    assert_eq!(d.message, "Unexpected token");
    assert_eq!(d.location, " at ')'");
    assert_eq!(d.line, 1);
}

#[test]
fn empty_input_reports_at_end() {
    let r = parse("");
    let d = r.unwrap_err();
    assert_eq!(d.message, "Unexpected token");
    assert_eq!(d.location, " at end");
}

#[test]
fn comparison_and_equality_levels() {
    let got = parse("1 < 2 == true").unwrap();
    let want = binary(
        binary(num("1"), op(token_type::LESS, "<"), num("2")),
        op(token_type::EQUAL_EQUAL, "=="),
        Expr::Literal(Literal::True),
    );
    assert_eq!(got, want);
}

#[test]
fn equality_chain_is_left_associative() {
    let got = parse("1 == 2 != 3").unwrap();
    let want = binary(
        binary(num("1"), op(token_type::EQUAL_EQUAL, "=="), num("2")),
        op(token_type::BANG_EQUAL, "!="),
        num("3"),
    );
    assert_eq!(got, want);
}

#[test]
fn division_chain_is_left_associative() {
    let got = parse("8 / 4 / 2").unwrap();
    let want = binary(
        binary(num("8"), op(token_type::SLASH, "/"), num("4")),
        op(token_type::SLASH, "/"),
        num("2"),
    );
    assert_eq!(got, want);
}

#[test]
fn unary_operators_nest() {
    let got = parse("!!false").unwrap();
    let want = Expr::Unary(
        op(token_type::BANG, "!"),
        Box::new(Expr::Unary(
            op(token_type::BANG, "!"),
            Box::new(Expr::Literal(Literal::False)),
        )),
    );
    assert_eq!(got, want);
}

#[test]
fn negation_binds_tighter_than_subtraction() {
    let got = parse("1 - -2").unwrap();
    let want = binary(
        num("1"),
        op(token_type::MINUS, "-"),
        Expr::Unary(op(token_type::MINUS, "-"), Box::new(num("2"))),
    );
    assert_eq!(got, want);
}

#[test]
fn literal_keywords_and_values() {
    assert_eq!(parse("true").unwrap(), Expr::Literal(Literal::True));
    assert_eq!(parse("false").unwrap(), Expr::Literal(Literal::False));
    assert_eq!(parse("12.5").unwrap(), Expr::Literal(Literal::Number("12.5".to_string())));
    assert_eq!(
        parse("\"hi\"").unwrap(),
        Expr::Literal(Literal::Str("hi".to_string()))
    );
}

#[test]
fn nil_token_parses_to_nil_literal() {
    // The scanner's keyword table has no "nil", so build the token stream
    // directly: a NIL token followed by the end-marker.
    let tokens = vec![
        Token::new("".to_string(), 1, token_type::NIL, "nil".to_string()),
        Token::new("".to_string(), 1, token_type::EOF, "".to_string()),
    ];
    assert!(rlox::token::stream_is_wf(&tokens));
    let mut p = Parser::new(tokens);
    assert_eq!(p.parse().unwrap(), Expr::Literal(Literal::Nil));
}

#[test]
fn number_literal_text_reads_as_float() {
    let got = parse("12.5").unwrap();
    match got {
        Expr::Literal(Literal::Number(text)) => {
            let value: f64 = text.parse().unwrap();
            assert_eq!(value, 12.5);
        }
        other => panic!("expected a number literal, got {:?}", other),
    }
}

#[test]
fn nested_grouping() {
    let got = parse("((1))").unwrap();
    let want = Expr::Grouping(Box::new(Expr::Grouping(Box::new(num("1")))));
    assert_eq!(got, want);
}

#[test]
fn error_reports_offending_line() {
    let r = parse("(1 +\n)");
    let d = r.unwrap_err();
    assert_eq!(d.message, "Unexpected token");
    assert_eq!(d.location, " at ')'");
    assert_eq!(d.line, 2);
}
