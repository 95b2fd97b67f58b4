use crate::error::{token_error, token_error_model, Diagnostic};
use crate::expr::{Expr, GExpr, GLit, Literal};
use crate::token::{stream_wf, token_type, tokens_view, SpecToken, Token};
use vstd::prelude::*;
use vstd::string::StringExecFns;

verus! {

// ---------------------------------------------------------------------------
// The grammar as a functional model
// ---------------------------------------------------------------------------
/// Result of one grammar-rule attempt: either a parsed subexpression, or the
/// first syntax error (offending token and message); `next` is the cursor
/// after the attempt in both cases.
pub ghost struct PRes {
    pub ok: bool,
    pub expr: GExpr,
    pub next: int,
    pub etok: SpecToken,
    pub emsg: Seq<char>,
}

/// Placeholder token for fields that carry no meaning.
pub open spec fn no_token() -> SpecToken {
    SpecToken {
        kind: token_type::EOF,
        lexeme: Seq::<char>::empty(),
        literal: Seq::<char>::empty(),
        line: 0,
    }
}

/// A successful attempt.
pub open spec fn p_ok(e: GExpr, next: int) -> PRes {
    PRes { ok: true, expr: e, next, etok: no_token(), emsg: Seq::<char>::empty() }
}

/// A failed attempt at position `at`, blaming token `t`.
pub open spec fn p_err(t: SpecToken, msg: Seq<char>, at: int) -> PRes {
    PRes { ok: false, expr: GExpr::Literal(GLit::Nil), next: at, etok: t, emsg: msg }
}

/// The kind at position `i`, reading past the end as the end-marker.
pub open spec fn kind_at(t: Seq<SpecToken>, i: int) -> token_type {
    if 0 <= i && i < t.len() {
        t[i].kind
    } else {
        token_type::EOF
    }
}

/// The token at position `i`, reading past the end as a placeholder.
pub open spec fn tok_at(t: Seq<SpecToken>, i: int) -> SpecToken {
    if 0 <= i && i < t.len() {
        t[i]
    } else {
        no_token()
    }
}

/// Tokens left from position `i`, clipped at zero: the primary measure of
/// the grammar's recursion.
pub open spec fn remaining(t: Seq<SpecToken>, i: int) -> int {
    if i <= t.len() {
        t.len() - i
    } else {
        0
    }
}

/// `j` confined to lie forward of `i` and within the stream.  Every
/// successful sub-parse moves the cursor so (the executable parser proves
/// it); the guard only justifies the recursion's termination.
pub open spec fn step_from(t: Seq<SpecToken>, i: int, j: int) -> int {
    if i + 1 <= j && j <= t.len() {
        j
    } else if i + 1 <= t.len() {
        i + 1
    } else {
        t.len() as int
    }
}

/// expression → equality.
pub open spec fn sp_expression(t: Seq<SpecToken>, i: int) -> PRes
    decreases remaining(t, i), 11int,
{
    sp_equality(t, i)
}

/// equality → comparison ( ( "!=" | "==" ) comparison )*, folded leftward.
pub open spec fn sp_equality(t: Seq<SpecToken>, i: int) -> PRes
    decreases remaining(t, i), 10int,
{
    let first = sp_comparison(t, i);
    if first.ok {
        sp_equality_more(t, first.expr, step_from(t, i, first.next))
    } else {
        first
    }
}

/// The pending operators of one equality chain, folding onto `left`.
pub open spec fn sp_equality_more(t: Seq<SpecToken>, left: GExpr, i: int) -> PRes
    decreases remaining(t, i), 9int,
{
    if kind_at(t, i) == token_type::BANG_EQUAL || kind_at(t, i) == token_type::EQUAL_EQUAL {
        let right = sp_comparison(t, i + 1);
        if right.ok {
            sp_equality_more(
                t,
                GExpr::Binary(Box::new(left), tok_at(t, i), Box::new(right.expr)),
                step_from(t, i + 1, right.next),
            )
        } else {
            right
        }
    } else {
        p_ok(left, i)
    }
}

/// comparison → term ( ( ">" | ">=" | "<" | "<=" ) term )*, folded leftward.
pub open spec fn sp_comparison(t: Seq<SpecToken>, i: int) -> PRes
    decreases remaining(t, i), 8int,
{
    let first = sp_term(t, i);
    if first.ok {
        sp_comparison_more(t, first.expr, step_from(t, i, first.next))
    } else {
        first
    }
}

/// The pending operators of one comparison chain, folding onto `left`.
pub open spec fn sp_comparison_more(t: Seq<SpecToken>, left: GExpr, i: int) -> PRes
    decreases remaining(t, i), 7int,
{
    if kind_at(t, i) == token_type::GREATER || kind_at(t, i) == token_type::GREATER_EQUAL
        || kind_at(t, i) == token_type::LESS || kind_at(t, i) == token_type::LESS_EQUAL {
        let right = sp_term(t, i + 1);
        if right.ok {
            sp_comparison_more(
                t,
                GExpr::Binary(Box::new(left), tok_at(t, i), Box::new(right.expr)),
                step_from(t, i + 1, right.next),
            )
        } else {
            right
        }
    } else {
        p_ok(left, i)
    }
}

/// term → factor ( ( "-" | "+" ) factor )*, folded leftward.
pub open spec fn sp_term(t: Seq<SpecToken>, i: int) -> PRes
    decreases remaining(t, i), 6int,
{
    let first = sp_factor(t, i);
    if first.ok {
        sp_term_more(t, first.expr, step_from(t, i, first.next))
    } else {
        first
    }
}

/// The pending operators of one term chain, folding onto `left`.
pub open spec fn sp_term_more(t: Seq<SpecToken>, left: GExpr, i: int) -> PRes
    decreases remaining(t, i), 5int,
{
    if kind_at(t, i) == token_type::MINUS || kind_at(t, i) == token_type::PLUS {
        let right = sp_factor(t, i + 1);
        if right.ok {
            sp_term_more(
                t,
                GExpr::Binary(Box::new(left), tok_at(t, i), Box::new(right.expr)),
                step_from(t, i + 1, right.next),
            )
        } else {
            right
        }
    } else {
        p_ok(left, i)
    }
}

/// factor → unary ( ( "*" | "/" ) unary )*, folded leftward.
pub open spec fn sp_factor(t: Seq<SpecToken>, i: int) -> PRes
    decreases remaining(t, i), 4int,
{
    let first = sp_unary(t, i);
    if first.ok {
        sp_factor_more(t, first.expr, step_from(t, i, first.next))
    } else {
        first
    }
}

/// The pending operators of one factor chain, folding onto `left`.
pub open spec fn sp_factor_more(t: Seq<SpecToken>, left: GExpr, i: int) -> PRes
    decreases remaining(t, i), 3int,
{
    if kind_at(t, i) == token_type::STAR || kind_at(t, i) == token_type::SLASH {
        let right = sp_unary(t, i + 1);
        if right.ok {
            sp_factor_more(
                t,
                GExpr::Binary(Box::new(left), tok_at(t, i), Box::new(right.expr)),
                step_from(t, i + 1, right.next),
            )
        } else {
            right
        }
    } else {
        p_ok(left, i)
    }
}

/// unary → ( "!" | "-" ) unary | primary.
pub open spec fn sp_unary(t: Seq<SpecToken>, i: int) -> PRes
    decreases remaining(t, i), 2int,
{
    if kind_at(t, i) == token_type::BANG || kind_at(t, i) == token_type::MINUS {
        let sub = sp_unary(t, i + 1);
        if sub.ok {
            p_ok(GExpr::Unary(tok_at(t, i), Box::new(sub.expr)), sub.next)
        } else {
            sub
        }
    } else {
        sp_primary(t, i)
    }
}

/// primary → NUMBER | STRING | "true" | "false" | "nil" | "(" expression ")".
pub open spec fn sp_primary(t: Seq<SpecToken>, i: int) -> PRes
    decreases remaining(t, i), 1int,
{
    let k = kind_at(t, i);
    if k == token_type::TRUE {
        p_ok(GExpr::Literal(GLit::True), i + 1)
    } else if k == token_type::FALSE {
        p_ok(GExpr::Literal(GLit::False), i + 1)
    } else if k == token_type::NIL {
        p_ok(GExpr::Literal(GLit::Nil), i + 1)
    } else if k == token_type::NUMBER {
        p_ok(GExpr::Literal(GLit::Number(tok_at(t, i).literal)), i + 1)
    } else if k == token_type::STRING {
        p_ok(GExpr::Literal(GLit::Str(tok_at(t, i).literal)), i + 1)
    } else if k == token_type::LEFT_PAREN {
        let inner = sp_expression(t, i + 1);
        if inner.ok {
            if kind_at(t, inner.next) == token_type::RIGHT_PAREN {
                p_ok(GExpr::Grouping(Box::new(inner.expr)), inner.next + 1)
            } else {
                p_err(tok_at(t, inner.next), "Expect ')' after expression."@, inner.next)
            }
        } else {
            inner
        }
    } else {
        p_err(tok_at(t, i), "Unexpected token"@, i)
    }
}

/// How each grammar method's outcome relates to its model: the cursor lands
/// on the model's `next`, a parsed tree matches the model's tree, and an
/// error is the model's error turned into a diagnostic.
pub open spec fn parse_post(sp: PRes, j: int, r: Result<Expr, Diagnostic>) -> bool {
    &&& j == sp.next
    &&& match r {
        Result::Ok(e) => sp.ok && e.model() == sp.expr,
        Result::Err(d) => !sp.ok && d@ == token_error_model(sp.etok, sp.emsg),
    }
}

// ---------------------------------------------------------------------------
// The parser
// ---------------------------------------------------------------------------
/// Recursive-descent parser over an immutable, end-marker-terminated token
/// sequence.  The cursor never passes the end-marker.
pub struct Parser {
    pub tokens: Vec<Token>,
    pub current: usize,
}

impl Parser {
    /// The token stream as a mathematical sequence.
    pub open spec fn stream(&self) -> Seq<SpecToken> {
        tokens_view(self.tokens@)
    }

    /// Well-formedness: the stream is end-marker-terminated and the cursor
    /// has not passed the end-marker.
    pub open spec fn wf(&self) -> bool {
        &&& stream_wf(self.stream())
        &&& self.current < self.tokens@.len()
    }

    /// A parser at the start of `tokens`, which must be a well-formed stream,
    /// as every complete scan produces (`stream_is_wf` checks it at runtime).
    pub fn new(tokens: Vec<Token>) -> (p: Parser)
        requires
            stream_wf(tokens_view(tokens@)),
        ensures
            p.wf(),
            p.stream() == tokens_view(tokens@),
            p.current == 0,
    {
        Parser { tokens, current: 0 }
    }

    /// The token under the cursor.
    fn peek(&self) -> (t: &Token)
        requires
            self.wf(),
        ensures
            t@ == self.stream()[self.current as int],
    {
        &self.tokens[self.current]
    }

    /// The token just consumed.
    fn previous(&self) -> (t: &Token)
        requires
            self.wf(),
            1 <= self.current,
        ensures
            t@ == self.stream()[self.current as int - 1],
    {
        &self.tokens[self.current - 1]
    }

    /// Whether the cursor stands on the end-marker.
    fn is_at_end(&self) -> (b: bool)
        requires
            self.wf(),
        ensures
            b == (kind_at(self.stream(), self.current as int) == token_type::EOF),
    {
        self.peek().token_type == token_type::EOF
    }

    /// Consumes and returns the token under the cursor, which must not be
    /// the end-marker.
    fn advance(&mut self) -> (t: Token)
        requires
            old(self).wf(),
            kind_at(old(self).stream(), old(self).current as int) != token_type::EOF,
        ensures
            final(self).wf(),
            final(self).tokens@ == old(self).tokens@,
            final(self).current == old(self).current + 1,
            t@ == old(self).stream()[old(self).current as int],
    {
        let n = self.tokens.len();
        assert(self.current < n);
        if !self.is_at_end() {
            self.current = self.current + 1;
        }
        let t = self.previous();
        t.clone()
    }

    /// Whether the token under the cursor has kind `kind` (never true at the
    /// end-marker).
    fn check(&self, kind: token_type) -> (b: bool)
        requires
            self.wf(),
        ensures
            b == (kind_at(self.stream(), self.current as int) == kind && kind != token_type::EOF),
    {
        if self.is_at_end() {
            false
        } else {
            self.peek().token_type == kind
        }
    }

    /// Consumes the token under the cursor when its kind is among
    /// `token_types`.
    fn match_token(&mut self, token_types: Vec<token_type>) -> (b: bool)
        requires
            old(self).wf(),
        ensures
            final(self).wf(),
            final(self).tokens@ == old(self).tokens@,
            ({
                let k = kind_at(old(self).stream(), old(self).current as int);
                if token_types@.contains(k) && k != token_type::EOF {
                    b && final(self).current == old(self).current + 1
                } else {
                    !b && final(self).current == old(self).current
                }
            }),
    {
        let n = token_types.len();
        let mut idx: usize = 0;
        while idx < n
            invariant
                self.wf(),
                idx <= n,
                n == token_types@.len(),
                self.tokens@ == old(self).tokens@,
                self.current == old(self).current,
                forall|j: int|
                    0 <= j < idx ==> !(kind_at(self.stream(), self.current as int)
                        == token_types@[j] && token_types@[j] != token_type::EOF),
            decreases n - idx,
        {
            if self.check(token_types[idx]) {
                let _ = self.advance();
                return true;
            }
            idx = idx + 1;
        }
        false
    }

    /// Consumes the token under the cursor when its kind is exactly
    /// `token_types`.
    fn match_single_token(&mut self, token_types: token_type) -> (b: bool)
        requires
            old(self).wf(),
        ensures
            final(self).wf(),
            final(self).tokens@ == old(self).tokens@,
            ({
                let k = kind_at(old(self).stream(), old(self).current as int);
                if k == token_types && k != token_type::EOF {
                    b && final(self).current == old(self).current + 1
                } else {
                    !b && final(self).current == old(self).current
                }
            }),
    {
        self.match_token(vec![token_types])
    }

    /// Consumes a token of kind `kind`, or reports `error_message` at the
    /// offending token.
    fn consume(&mut self, kind: token_type, error_message: String) -> (r: Result<
        Token,
        Diagnostic,
    >)
        requires
            old(self).wf(),
            kind != token_type::EOF,
        ensures
            final(self).wf(),
            final(self).tokens@ == old(self).tokens@,
            ({
                let t = old(self).stream();
                let i = old(self).current as int;
                if kind_at(t, i) == kind {
                    &&& final(self).current == old(self).current + 1
                    &&& match r {
                        Result::Ok(tok) => tok@ == t[i],
                        Result::Err(_) => false,
                    }
                } else {
                    &&& final(self).current == old(self).current
                    &&& match r {
                        Result::Ok(_) => false,
                        Result::Err(d) => d@ == token_error_model(tok_at(t, i), error_message@),
                    }
                }
            }),
    {
        if self.check(kind) {
            Ok(self.advance())
        } else {
            let d = token_error(self.peek(), error_message.as_str());
            Err(d)
        }
    }

    /// Parses one expression from the cursor, or reports the first syntax
    /// error: exactly what the grammar model `sp_expression` yields.
    pub fn parse(&mut self) -> (r: Result<Expr, Diagnostic>)
        requires
            old(self).wf(),
        ensures
            final(self).wf(),
            final(self).tokens@ == old(self).tokens@,
            parse_post(
                sp_expression(old(self).stream(), old(self).current as int),
                final(self).current as int,
                r,
            ),
    {
        self.expression()
    }

    fn expression(&mut self) -> (r: Result<Expr, Diagnostic>)
        requires
            old(self).wf(),
        ensures
            final(self).wf(),
            final(self).tokens@ == old(self).tokens@,
            old(self).current <= final(self).current,
            r is Ok ==> old(self).current < final(self).current,
            parse_post(
                sp_expression(old(self).stream(), old(self).current as int),
                final(self).current as int,
                r,
            ),
        decreases self.tokens@.len() - self.current, 11int,
    {
        self.equality()
    }

    #[verifier::rlimit(100)]
    fn equality(&mut self) -> (r: Result<Expr, Diagnostic>)
        requires
            old(self).wf(),
        ensures
            final(self).wf(),
            final(self).tokens@ == old(self).tokens@,
            old(self).current <= final(self).current,
            r is Ok ==> old(self).current < final(self).current,
            parse_post(
                sp_equality(old(self).stream(), old(self).current as int),
                final(self).current as int,
                r,
            ),
        decreases self.tokens@.len() - self.current, 10int,
    {
        let ghost t = self.stream();
        let ghost i0 = self.current as int;
        let first = self.comparison();
        let mut expr: Expr = match first {
            Ok(e) => e,
            Err(d) => {
                return Err(d);
            },
        };
        while self.match_token(vec![token_type::BANG_EQUAL, token_type::EQUAL_EQUAL])
            invariant
                self.wf(),
                self.tokens@ == old(self).tokens@,
                t == self.stream(),
                t == old(self).stream(),
                i0 == old(self).current as int,
                i0 < self.current as int,
                sp_equality(t, i0) == sp_equality_more(t, expr.model(), self.current as int),
            decreases self.tokens@.len() - self.current,
        {
            let operator = self.previous().clone();
            let right: Expr = match self.comparison() {
                Ok(e) => e,
                Err(d) => {
                    return Err(d);
                },
            };
            expr = Expr::Binary(Box::new(expr), operator, Box::new(right));
        }
        Ok(expr)
    }

    #[verifier::rlimit(100)]
    fn comparison(&mut self) -> (r: Result<Expr, Diagnostic>)
        requires
            old(self).wf(),
        ensures
            final(self).wf(),
            final(self).tokens@ == old(self).tokens@,
            old(self).current <= final(self).current,
            r is Ok ==> old(self).current < final(self).current,
            parse_post(
                sp_comparison(old(self).stream(), old(self).current as int),
                final(self).current as int,
                r,
            ),
        decreases self.tokens@.len() - self.current, 8int,
    {
        let ghost t = self.stream();
        let ghost i0 = self.current as int;
        let first = self.term();
        let mut expr: Expr = match first {
            Ok(e) => e,
            Err(d) => {
                return Err(d);
            },
        };
        while self.match_token(
            vec![
                token_type::GREATER,
                token_type::GREATER_EQUAL,
                token_type::LESS,
                token_type::LESS_EQUAL,
            ],
        )
            invariant
                self.wf(),
                self.tokens@ == old(self).tokens@,
                t == self.stream(),
                t == old(self).stream(),
                i0 == old(self).current as int,
                i0 < self.current as int,
                sp_comparison(t, i0) == sp_comparison_more(t, expr.model(), self.current as int),
            decreases self.tokens@.len() - self.current,
        {
            let operator = self.previous().clone();
            let right: Expr = match self.term() {
                Ok(e) => e,
                Err(d) => {
                    return Err(d);
                },
            };
            expr = Expr::Binary(Box::new(expr), operator, Box::new(right));
        }
        Ok(expr)
    }

    #[verifier::rlimit(100)]
    fn term(&mut self) -> (r: Result<Expr, Diagnostic>)
        requires
            old(self).wf(),
        ensures
            final(self).wf(),
            final(self).tokens@ == old(self).tokens@,
            old(self).current <= final(self).current,
            r is Ok ==> old(self).current < final(self).current,
            parse_post(
                sp_term(old(self).stream(), old(self).current as int),
                final(self).current as int,
                r,
            ),
        decreases self.tokens@.len() - self.current, 6int,
    {
        let ghost t = self.stream();
        let ghost i0 = self.current as int;
        let first = self.factor();
        let mut expr: Expr = match first {
            Ok(e) => e,
            Err(d) => {
                return Err(d);
            },
        };
        while self.match_token(vec![token_type::MINUS, token_type::PLUS])
            invariant
                self.wf(),
                self.tokens@ == old(self).tokens@,
                t == self.stream(),
                t == old(self).stream(),
                i0 == old(self).current as int,
                i0 < self.current as int,
                sp_term(t, i0) == sp_term_more(t, expr.model(), self.current as int),
            decreases self.tokens@.len() - self.current,
        {
            let operator = self.previous().clone();
            let right: Expr = match self.factor() {
                Ok(e) => e,
                Err(d) => {
                    return Err(d);
                },
            };
            expr = Expr::Binary(Box::new(expr), operator, Box::new(right));
        }
        Ok(expr)
    }

    #[verifier::rlimit(100)]
    fn factor(&mut self) -> (r: Result<Expr, Diagnostic>)
        requires
            old(self).wf(),
        ensures
            final(self).wf(),
            final(self).tokens@ == old(self).tokens@,
            old(self).current <= final(self).current,
            r is Ok ==> old(self).current < final(self).current,
            parse_post(
                sp_factor(old(self).stream(), old(self).current as int),
                final(self).current as int,
                r,
            ),
        decreases self.tokens@.len() - self.current, 4int,
    {
        let ghost t = self.stream();
        let ghost i0 = self.current as int;
        let first = self.unary();
        let mut expr: Expr = match first {
            Ok(e) => e,
            Err(d) => {
                return Err(d);
            },
        };
        while self.match_token(vec![token_type::STAR, token_type::SLASH])
            invariant
                self.wf(),
                self.tokens@ == old(self).tokens@,
                t == self.stream(),
                t == old(self).stream(),
                i0 == old(self).current as int,
                i0 < self.current as int,
                sp_factor(t, i0) == sp_factor_more(t, expr.model(), self.current as int),
            decreases self.tokens@.len() - self.current,
        {
            let operator = self.previous().clone();
            let right: Expr = match self.unary() {
                Ok(e) => e,
                Err(d) => {
                    return Err(d);
                },
            };
            expr = Expr::Binary(Box::new(expr), operator, Box::new(right));
        }
        Ok(expr)
    }

    #[verifier::rlimit(100)]
    fn unary(&mut self) -> (r: Result<Expr, Diagnostic>)
        requires
            old(self).wf(),
        ensures
            final(self).wf(),
            final(self).tokens@ == old(self).tokens@,
            old(self).current <= final(self).current,
            r is Ok ==> old(self).current < final(self).current,
            parse_post(
                sp_unary(old(self).stream(), old(self).current as int),
                final(self).current as int,
                r,
            ),
        decreases self.tokens@.len() - self.current, 2int,
    {
        if self.match_token(vec![token_type::BANG, token_type::MINUS]) {
            let operator = self.previous().clone();
            match self.unary() {
                Ok(e) => Ok(Expr::Unary(operator, Box::new(e))),
                Err(d) => Err(d),
            }
        } else {
            self.primary()
        }
    }

    #[verifier::rlimit(100)]
    fn primary(&mut self) -> (r: Result<Expr, Diagnostic>)
        requires
            old(self).wf(),
        ensures
            final(self).wf(),
            final(self).tokens@ == old(self).tokens@,
            old(self).current <= final(self).current,
            r is Ok ==> old(self).current < final(self).current,
            parse_post(
                sp_primary(old(self).stream(), old(self).current as int),
                final(self).current as int,
                r,
            ),
        decreases self.tokens@.len() - self.current, 1int,
    {
        if self.match_single_token(token_type::TRUE) {
            return Ok(Expr::Literal(Literal::True));
        }
        if self.match_single_token(token_type::FALSE) {
            return Ok(Expr::Literal(Literal::False));
        }
        if self.match_single_token(token_type::NIL) {
            return Ok(Expr::Literal(Literal::Nil));
        }
        if self.match_single_token(token_type::NUMBER) {
            let lit = self.previous().literal.clone();
            return Ok(Expr::Literal(Literal::Number(lit)));
        }
        if self.match_single_token(token_type::STRING) {
            let lit = self.previous().literal.clone();
            return Ok(Expr::Literal(Literal::Str(lit)));
        }
        if self.match_single_token(token_type::LEFT_PAREN) {
            let inner: Expr = match self.expression() {
                Ok(e) => e,
                Err(d) => {
                    return Err(d);
                },
            };
            return match self.consume(
                token_type::RIGHT_PAREN,
                String::from_str("Expect ')' after expression."),
            ) {
                Ok(_) => Ok(Expr::Grouping(Box::new(inner))),
                Err(d) => Err(d),
            };
        }
        let d = token_error(self.peek(), "Unexpected token");
        Err(d)
    }
}

} // verus!
