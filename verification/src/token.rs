use vstd::prelude::*;

verus! {

/// Lexical category of a token: punctuation, operators, literals, the fixed
/// keywords, and the end-marker that closes every scan.
#[allow(non_camel_case_types)]
#[derive(Debug, Clone, Copy, PartialEq, Eq, Structural)]
pub enum token_type {
    // Single-character tokens.
    LEFT_PAREN,
    RIGHT_PAREN,
    LEFT_BRACE,
    RIGHT_BRACE,
    COMMA,
    DOT,
    MINUS,
    PLUS,
    SEMICOLON,
    SLASH,
    STAR,
    // One or two character tokens.
    BANG,
    BANG_EQUAL,
    EQUAL,
    EQUAL_EQUAL,
    GREATER,
    GREATER_EQUAL,
    LESS,
    LESS_EQUAL,
    // Literals.
    IDENTIFIER,
    STRING,
    NUMBER,
    // Keywords.
    AND,
    CLASS,
    ELSE,
    FALSE,
    FUN,
    FOR,
    IF,
    NIL,
    OR,
    PRINT,
    RETURN,
    SUPER,
    THIS,
    TRUE,
    VAR,
    WHILE,
    EOF,
}

/// Mathematical model of a token: its category, the exact source slice it
/// spans, the decoded literal payload, and the 1-based line it was read on.
pub struct SpecToken {
    pub kind: token_type,
    pub lexeme: Seq<char>,
    pub literal: Seq<char>,
    pub line: u32,
}

/// A classified piece of source text produced by the scanner.
///
/// `lexeme` is the exact substring the token spans (empty only for the
/// end-marker); `literal` is the decoded payload of a literal token (the
/// numeric text, or a string literal's body) and empty otherwise.
#[derive(Debug, PartialEq)]
pub struct Token {
    pub literal: String,
    pub line: u32,
    pub token_type: token_type,
    pub lexeme: String,
}

impl View for Token {
    type V = SpecToken;

    open spec fn view(&self) -> SpecToken {
        SpecToken {
            kind: self.token_type,
            lexeme: self.lexeme@,
            literal: self.literal@,
            line: self.line,
        }
    }
}

impl Clone for Token {
    fn clone(&self) -> (r: Self)
        ensures
            r@ == self@,
    {
        Token {
            literal: self.literal.clone(),
            line: self.line,
            token_type: self.token_type,
            lexeme: self.lexeme.clone(),
        }
    }
}

impl Token {
    pub fn new(literal: String, line: u32, token_type: token_type, lexeme: String) -> (t: Self)
        ensures
            t@ == (SpecToken { kind: token_type, lexeme: lexeme@, literal: literal@, line }),
    {
        Token { literal, line, token_type, lexeme }
    }
}

/// The sequence of token models behind a sequence of tokens.
pub open spec fn tokens_view(s: Seq<Token>) -> Seq<SpecToken> {
    s.map_values(|t: Token| t@)
}

/// A well-formed token stream: non-empty, ends with the end-marker, and the
/// end-marker appears nowhere else.  Every complete scan produces such a
/// stream, and the parser relies on it to never step past the end.
pub open spec fn stream_wf(t: Seq<SpecToken>) -> bool {
    &&& t.len() >= 1
    &&& t[t.len() - 1].kind == token_type::EOF
    &&& forall|j: int| 0 <= j < t.len() - 1 ==> t[j].kind != token_type::EOF
}

/// Runtime check for `stream_wf`, for callers outside the verified crate
/// that assemble a token vector themselves.
pub fn stream_is_wf(tokens: &Vec<Token>) -> (b: bool)
    ensures
        b == stream_wf(tokens_view(tokens@)),
{
    let n = tokens.len();
    if n == 0 {
        return false;
    }
    if tokens[n - 1].token_type != token_type::EOF {
        return false;
    }
    let mut i: usize = 0;
    while i < n - 1
        invariant
            0 < n == tokens@.len(),
            i <= n - 1,
            forall|j: int| 0 <= j < i ==> tokens_view(tokens@)[j].kind != token_type::EOF,
        decreases n - 1 - i,
    {
        if tokens[i].token_type == token_type::EOF {
            assert(tokens_view(tokens@)[i as int].kind == token_type::EOF);
            return false;
        }
        i = i + 1;
    }
    true
}

} // verus!
