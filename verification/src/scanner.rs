use crate::error::{diags_view, error, Diagnostic, SpecDiag};
use crate::token::{token_type, tokens_view, SpecToken, Token};
use vstd::prelude::*;
use vstd::string::{StrSliceExecFns, StringExecFns};

verus! {

// ---------------------------------------------------------------------------
// Character classes
// ---------------------------------------------------------------------------
/// ASCII decimal digit.
pub open spec fn is_digit(c: char) -> bool {
    ('0' as u32) <= (c as u32) && (c as u32) <= ('9' as u32)
}

/// ASCII letter or underscore: what may begin an identifier.
pub open spec fn is_alpha(c: char) -> bool {
    ||| ('a' as u32) <= (c as u32) && (c as u32) <= ('z' as u32)
    ||| ('A' as u32) <= (c as u32) && (c as u32) <= ('Z' as u32)
    ||| c == '_'
}

/// What may continue an identifier: letter, digit or underscore.
pub open spec fn is_alnum(c: char) -> bool {
    is_digit(c) || is_alpha(c)
}

// ---------------------------------------------------------------------------
// Runs and searches over the source
// ---------------------------------------------------------------------------
/// Index just past the run of digits beginning at `i`.
pub open spec fn digits_end(src: Seq<char>, i: int) -> int
    decreases src.len() - i,
{
    if 0 <= i && i < src.len() && is_digit(src[i]) {
        digits_end(src, i + 1)
    } else {
        i
    }
}

/// Index just past the run of identifier characters beginning at `i`.
pub open spec fn ident_end(src: Seq<char>, i: int) -> int
    decreases src.len() - i,
{
    if 0 <= i && i < src.len() && is_alnum(src[i]) {
        ident_end(src, i + 1)
    } else {
        i
    }
}

/// First index at or after `i` holding `target`, or the length if none.
pub open spec fn find_char(src: Seq<char>, i: int, target: char) -> int
    decreases src.len() - i,
{
    if 0 <= i && i < src.len() {
        if src[i] == target {
            i
        } else {
            find_char(src, i + 1, target)
        }
    } else {
        src.len() as int
    }
}

/// Number of newline characters in `src[i..j)`.
pub open spec fn newlines_in(src: Seq<char>, i: int, j: int) -> int
    decreases j - i,
{
    if i < j {
        (if 0 <= i && i < src.len() && src[i] == '\n' {
            1int
        } else {
            0int
        }) + newlines_in(src, i + 1, j)
    } else {
        0
    }
}

// ---------------------------------------------------------------------------
// Keywords
// ---------------------------------------------------------------------------
/// The keyword kind spelled exactly `s`, if any.
pub open spec fn spec_keyword(s: Seq<char>) -> Option<token_type> {
    if s == "and"@ {
        Some(token_type::AND)
    } else if s == "or"@ {
        Some(token_type::OR)
    } else if s == "fun"@ {
        Some(token_type::FUN)
    } else if s == "class"@ {
        Some(token_type::CLASS)
    } else if s == "if"@ {
        Some(token_type::IF)
    } else if s == "else"@ {
        Some(token_type::ELSE)
    } else if s == "true"@ {
        Some(token_type::TRUE)
    } else if s == "false"@ {
        Some(token_type::FALSE)
    } else if s == "super"@ {
        Some(token_type::SUPER)
    } else if s == "return"@ {
        Some(token_type::RETURN)
    } else if s == "this"@ {
        Some(token_type::THIS)
    } else if s == "var"@ {
        Some(token_type::VAR)
    } else if s == "while"@ {
        Some(token_type::WHILE)
    } else if s == "for"@ {
        Some(token_type::FOR)
    } else if s == "print"@ {
        Some(token_type::PRINT)
    } else {
        None
    }
}

/// The token kind an identifier-shaped run of text scans to.
pub open spec fn keyword_kind(s: Seq<char>) -> token_type {
    match spec_keyword(s) {
        Some(k) => k,
        None => token_type::IDENTIFIER,
    }
}

// ---------------------------------------------------------------------------
// One scanner step
// ---------------------------------------------------------------------------
/// What one step of the scan does from a position: where the cursor and line
/// counter move, and the token or diagnostic (if either) produced.
pub ghost struct ScanStep {
    pub next: int,
    pub line: u32,
    pub token: Option<SpecToken>,
    pub diag: Option<SpecDiag>,
}

/// A step producing one token whose lexeme is `src[i..j)` and no diagnostic.
pub open spec fn token_step(
    src: Seq<char>,
    i: int,
    j: int,
    line: u32,
    kind: token_type,
    literal: Seq<char>,
) -> ScanStep {
    ScanStep {
        next: j,
        line,
        token: Some(
            SpecToken { kind, lexeme: src.subrange(i, j), literal, line },
        ),
        diag: None,
    }
}

/// A step over one or two characters: the two-character token when the next
/// character is `=`, the one-character token otherwise.
pub open spec fn one_or_two_step(
    src: Seq<char>,
    i: int,
    line: u32,
    one: token_type,
    two: token_type,
) -> ScanStep {
    if i + 1 < src.len() && src[i + 1] == '=' {
        token_step(src, i, i + 2, line, two, Seq::<char>::empty())
    } else {
        token_step(src, i, i + 1, line, one, Seq::<char>::empty())
    }
}

/// A string literal step: consume up to the closing quote, counting embedded
/// newlines; at end-of-input, the run up to the end is the (invalid) literal
/// and an unterminated-string diagnostic is produced.
pub open spec fn string_step(src: Seq<char>, i: int, line: u32) -> ScanStep {
    let q = find_char(src, i + 1, '"');
    let nl = (line + newlines_in(src, i + 1, q)) as u32;
    if q < src.len() {
        ScanStep {
            next: q + 1,
            line: nl,
            token: Some(
                SpecToken {
                    kind: token_type::STRING,
                    lexeme: src.subrange(i, q + 1),
                    literal: src.subrange(i + 1, q),
                    line: nl,
                },
            ),
            diag: None,
        }
    } else {
        ScanStep {
            next: src.len() as int,
            line: nl,
            token: Some(
                SpecToken {
                    kind: token_type::STRING,
                    lexeme: src.subrange(i, src.len() as int),
                    literal: src.subrange(i + 1, src.len() as int),
                    line: nl,
                },
            ),
            diag: Some(
                SpecDiag {
                    line: nl,
                    location: Seq::<char>::empty(),
                    message: "Unterminated string."@,
                },
            ),
        }
    }
}

/// A number step: a run of digits, optionally a decimal point followed by at
/// least one digit and the further digit run.  Lexeme and payload coincide.
pub open spec fn number_step(src: Seq<char>, i: int, line: u32) -> ScanStep {
    let j = digits_end(src, i + 1);
    let end = if j < src.len() && src[j] == '.' && j + 1 < src.len() && is_digit(src[j + 1]) {
        digits_end(src, j + 1)
    } else {
        j
    };
    token_step(src, i, end, line, token_type::NUMBER, src.subrange(i, end))
}

/// An identifier step: the maximal run of identifier characters, classified
/// against the keyword table.
pub open spec fn ident_step(src: Seq<char>, i: int, line: u32) -> ScanStep {
    let j = ident_end(src, i + 1);
    token_step(src, i, j, line, keyword_kind(src.subrange(i, j)), Seq::<char>::empty())
}

/// One scanner step at in-range position `i` on line `line`: the scanning
/// rules, one case per kind of character.
pub open spec fn spec_step(src: Seq<char>, i: int, line: u32) -> ScanStep {
    let c = src[i];
    if c == '(' {
        token_step(src, i, i + 1, line, token_type::LEFT_PAREN, Seq::<char>::empty())
    } else if c == ')' {
        token_step(src, i, i + 1, line, token_type::RIGHT_PAREN, Seq::<char>::empty())
    } else if c == '{' {
        token_step(src, i, i + 1, line, token_type::LEFT_BRACE, Seq::<char>::empty())
    } else if c == '}' {
        token_step(src, i, i + 1, line, token_type::RIGHT_BRACE, Seq::<char>::empty())
    } else if c == ',' {
        token_step(src, i, i + 1, line, token_type::COMMA, Seq::<char>::empty())
    } else if c == '.' {
        token_step(src, i, i + 1, line, token_type::DOT, Seq::<char>::empty())
    } else if c == ';' {
        token_step(src, i, i + 1, line, token_type::SEMICOLON, Seq::<char>::empty())
    } else if c == '-' {
        token_step(src, i, i + 1, line, token_type::MINUS, Seq::<char>::empty())
    } else if c == '+' {
        token_step(src, i, i + 1, line, token_type::PLUS, Seq::<char>::empty())
    } else if c == '*' {
        token_step(src, i, i + 1, line, token_type::STAR, Seq::<char>::empty())
    } else if c == '!' {
        one_or_two_step(src, i, line, token_type::BANG, token_type::BANG_EQUAL)
    } else if c == '=' {
        one_or_two_step(src, i, line, token_type::EQUAL, token_type::EQUAL_EQUAL)
    } else if c == '<' {
        one_or_two_step(src, i, line, token_type::LESS, token_type::LESS_EQUAL)
    } else if c == '>' {
        one_or_two_step(src, i, line, token_type::GREATER, token_type::GREATER_EQUAL)
    } else if c == '/' {
        if i + 1 < src.len() && src[i + 1] == '/' {
            // A line comment: consumed with no token, up to (not including)
            // the newline, or to end-of-input.
            ScanStep { next: find_char(src, i + 2, '\n'), line, token: None, diag: None }
        } else {
            token_step(src, i, i + 1, line, token_type::SLASH, Seq::<char>::empty())
        }
    } else if c == '\n' {
        ScanStep { next: i + 1, line: (line + 1) as u32, token: None, diag: None }
    } else if c == ' ' || c == '\r' || c == '\t' {
        ScanStep { next: i + 1, line, token: None, diag: None }
    } else if c == '"' {
        string_step(src, i, line)
    } else if is_digit(c) {
        number_step(src, i, line)
    } else if is_alpha(c) {
        ident_step(src, i, line)
    } else {
        // Unexpected character: reported and skipped, the scan continues.
        ScanStep {
            next: i + 1,
            line,
            token: None,
            diag: Some(
                SpecDiag {
                    line,
                    location: Seq::<char>::empty(),
                    message: "Unexpected character."@,
                },
            ),
        }
    }
}

// ---------------------------------------------------------------------------
// The complete scan
// ---------------------------------------------------------------------------
/// The end-marker token: empty lexeme, no payload, the line of end-of-input.
pub open spec fn eof_token(line: u32) -> SpecToken {
    SpecToken {
        kind: token_type::EOF,
        lexeme: Seq::<char>::empty(),
        literal: Seq::<char>::empty(),
        line,
    }
}

/// An optional token as a sequence of zero or one.
pub open spec fn opt_tok(o: Option<SpecToken>) -> Seq<SpecToken> {
    match o {
        Some(t) => seq![t],
        None => Seq::<SpecToken>::empty(),
    }
}

/// An optional diagnostic as a sequence of zero or one.
pub open spec fn opt_diag(o: Option<SpecDiag>) -> Seq<SpecDiag> {
    match o {
        Some(d) => seq![d],
        None => Seq::<SpecDiag>::empty(),
    }
}

/// Everything a whole scan produces: the ordered tokens (ending with the
/// end-marker) and the ordered diagnostics.
pub ghost struct ScanOut {
    pub tokens: Seq<SpecToken>,
    pub diags: Seq<SpecDiag>,
}

/// The scan from position `i` on line `line` to the end of the source.
/// (The cursor always moves forward, so the guarded recursion below follows
/// each step exactly; `lemma_step_props` shows the guard never bites.)
pub open spec fn spec_scan_from(src: Seq<char>, i: int, line: u32) -> ScanOut
    decreases src.len() - i,
{
    if i < 0 || i >= src.len() {
        ScanOut { tokens: seq![eof_token(line)], diags: Seq::<SpecDiag>::empty() }
    } else {
        let st = spec_step(src, i, line);
        let n = if i + 1 <= st.next && st.next <= src.len() {
            st.next
        } else {
            i + 1
        };
        let rest = spec_scan_from(src, n, st.line);
        ScanOut {
            tokens: opt_tok(st.token) + rest.tokens,
            diags: opt_diag(st.diag) + rest.diags,
        }
    }
}

/// The token sequence of a complete scan of `src`.
pub open spec fn spec_tokens(src: Seq<char>) -> Seq<SpecToken> {
    spec_scan_from(src, 0, 1).tokens
}

/// The diagnostics of a complete scan of `src`.
pub open spec fn spec_diags(src: Seq<char>) -> Seq<SpecDiag> {
    spec_scan_from(src, 0, 1).diags
}

// ---------------------------------------------------------------------------
// Facts about the model
// ---------------------------------------------------------------------------
/// The end of a digit run lies between its start and the end of the source.
pub proof fn lemma_digits_end_bounds(src: Seq<char>, i: int)
    requires
        0 <= i <= src.len(),
    ensures
        i <= digits_end(src, i) <= src.len(),
    decreases src.len() - i,
{
    if i < src.len() && is_digit(src[i]) {
        lemma_digits_end_bounds(src, i + 1);
    }
}

/// The end of an identifier run lies between its start and the end of the source.
pub proof fn lemma_ident_end_bounds(src: Seq<char>, i: int)
    requires
        0 <= i <= src.len(),
    ensures
        i <= ident_end(src, i) <= src.len(),
    decreases src.len() - i,
{
    if i < src.len() && is_alnum(src[i]) {
        lemma_ident_end_bounds(src, i + 1);
    }
}

/// A character search lands between its start and the end of the source, and
/// on the target when it is found before the end.
pub proof fn lemma_find_char_bounds(src: Seq<char>, i: int, target: char)
    requires
        0 <= i <= src.len(),
    ensures
        i <= find_char(src, i, target) <= src.len(),
        find_char(src, i, target) < src.len() ==> src[find_char(src, i, target)] == target,
    decreases src.len() - i,
{
    if i < src.len() && src[i] != target {
        lemma_find_char_bounds(src, i + 1, target);
    }
}

/// A range holds at most as many newlines as characters, and none when empty.
pub proof fn lemma_newlines_bounds(src: Seq<char>, i: int, j: int)
    ensures
        0 <= newlines_in(src, i, j),
        i <= j ==> newlines_in(src, i, j) <= j - i,
    decreases j - i,
{
    if i < j {
        lemma_newlines_bounds(src, i + 1, j);
    }
}

/// Counting newlines splits at any midpoint.
pub proof fn lemma_newlines_split(src: Seq<char>, i: int, j: int, k: int)
    requires
        i <= j <= k,
    ensures
        newlines_in(src, i, k) == newlines_in(src, i, j) + newlines_in(src, j, k),
    decreases j - i,
{
    if i < j {
        lemma_newlines_split(src, i + 1, j, k);
    }
}

/// Every scan yields a well-formed stream: exactly one end-marker, at the end.
pub proof fn lemma_scan_stream_wf(src: Seq<char>, i: int, line: u32)
    ensures
        crate::token::stream_wf(spec_scan_from(src, i, line).tokens),
    decreases src.len() - i,
{
    if i < 0 || i >= src.len() {
    } else {
        let st = spec_step(src, i, line);
        let n = if i + 1 <= st.next && st.next <= src.len() {
            st.next
        } else {
            i + 1
        };
        lemma_scan_stream_wf(src, n, st.line);
        lemma_step_props(src, i, line);
        let rest = spec_scan_from(src, n, st.line).tokens;
        let whole = spec_scan_from(src, i, line).tokens;
        assert(whole == opt_tok(st.token) + rest);
        assert(whole[whole.len() - 1] == rest[rest.len() - 1]);
        assert forall|j: int| 0 <= j < whole.len() - 1 implies whole[j].kind != token_type::EOF by {
            if j >= opt_tok(st.token).len() {
                assert(whole[j] == rest[j - opt_tok(st.token).len()]);
            }
        }
    }
}

/// The output contract of a complete scan: a non-empty token sequence that
/// ends with exactly one end-marker token.
pub proof fn lemma_tokens_well_terminated(src: Seq<char>)
    ensures
        crate::token::stream_wf(spec_tokens(src)),
{
    lemma_scan_stream_wf(src, 0, 1);
}

/// Round trip: every token of a scan spans a contiguous slice of the source,
/// and its `lexeme` is byte-for-byte that slice.  (The end-marker carries the
/// empty slice.)
pub proof fn lemma_lexeme_round_trip(src: Seq<char>, k: int)
    requires
        0 <= k < spec_tokens(src).len(),
    ensures
        exists|a: int, b: int|
            0 <= a <= b <= src.len() && spec_tokens(src)[k].lexeme == src.subrange(a, b),
{
    lemma_scan_lexemes_aux(src, 0, 1, k);
}

proof fn lemma_scan_lexemes_aux(src: Seq<char>, i: int, line: u32, k: int)
    requires
        0 <= k < spec_scan_from(src, i, line).tokens.len(),
    ensures
        exists|a: int, b: int|
            0 <= a <= b <= src.len() && spec_scan_from(src, i, line).tokens[k].lexeme
                == src.subrange(a, b),
    decreases src.len() - i,
{
    if i < 0 || i >= src.len() {
        assert(spec_scan_from(src, i, line).tokens[k].lexeme =~= src.subrange(0, 0));
    } else {
        lemma_step_props(src, i, line);
        let st = spec_step(src, i, line);
        let n = if i + 1 <= st.next && st.next <= src.len() {
            st.next
        } else {
            i + 1
        };
        let c = opt_tok(st.token).len() as int;
        if st.token matches Some(t) && k == 0 {
            assert(0 <= i <= st.next <= src.len() && spec_scan_from(src, i, line).tokens[k].lexeme
                == src.subrange(i, st.next));
        } else {
            lemma_scan_lexemes_aux(src, n, st.line, k - c);
            assert(spec_scan_from(src, i, line).tokens[k]
                == spec_scan_from(src, n, st.line).tokens[k - c]);
        }
    }
}

/// Idempotence: scanning is a pure function of the source text, so two
/// independent scans of equal sources yield identical token sequences and
/// identical diagnostics.
pub proof fn lemma_scan_deterministic(a: Seq<char>, b: Seq<char>)
    requires
        a == b,
    ensures
        spec_tokens(a) == spec_tokens(b),
        spec_diags(a) == spec_diags(b),
{
}

/// Every step from an in-range position moves the cursor forward but not past
/// the end, and a produced token spans exactly the consumed slice and is
/// never the end-marker.
pub proof fn lemma_step_props(src: Seq<char>, i: int, line: u32)
    requires
        0 <= i < src.len(),
    ensures
        i < spec_step(src, i, line).next <= src.len(),
        spec_step(src, i, line).token matches Some(t) ==> t.kind != token_type::EOF
            && t.lexeme == src.subrange(i, spec_step(src, i, line).next),
{
    let c = src[i];
    if c == '/' && i + 1 < src.len() && src[i + 1] == '/' {
        lemma_find_char_bounds(src, i + 2, '\n');
    } else if c == '"' {
        lemma_find_char_bounds(src, i + 1, '"');
    } else if is_digit(c) {
        lemma_digits_end_bounds(src, i + 1);
        let j = digits_end(src, i + 1);
        if j < src.len() && src[j] == '.' && j + 1 < src.len() && is_digit(src[j + 1]) {
            lemma_digits_end_bounds(src, j + 1);
            assert(digits_end(src, j + 1) == digits_end(src, j + 2));
        }
    } else if is_alpha(c) {
        lemma_ident_end_bounds(src, i + 1);
    }
}

// ---------------------------------------------------------------------------
// Executable character classes
// ---------------------------------------------------------------------------
/// Whether `c` is an ASCII digit.
fn digit_char(c: char) -> (b: bool)
    ensures
        b == is_digit(c),
{
    ('0' as u32) <= (c as u32) && (c as u32) <= ('9' as u32)
}

/// Whether `c` may begin an identifier.
fn alpha_char(c: char) -> (b: bool)
    ensures
        b == is_alpha(c),
{
    (('a' as u32) <= (c as u32) && (c as u32) <= ('z' as u32)) || (('A' as u32) <= (c as u32) && (c
        as u32) <= ('Z' as u32)) || c == '_'
}

/// Whether `c` may continue an identifier.
fn alnum_char(c: char) -> (b: bool)
    ensures
        b == is_alnum(c),
{
    digit_char(c) || alpha_char(c)
}

// ---------------------------------------------------------------------------
// The scanner
// ---------------------------------------------------------------------------
/// A single left-to-right pass over a source string, producing the token
/// sequence and the diagnostics that `spec_tokens` / `spec_diags` describe.
///
/// `start` is the index where the current token began, `current` the index of
/// the next unread character, `line` the current 1-based line.
pub struct Scanner {
    pub start: usize,
    pub current: usize,
    pub line: u32,
    pub source: String,
    pub tokens: Vec<Token>,
    pub diagnostics: Vec<Diagnostic>,
}

impl Scanner {
    /// Well-formedness: cursors in range, the line counter bounded by the
    /// characters consumed, and room to count lines in a `u32`.
    pub open spec fn wf(&self) -> bool {
        &&& self.start <= self.current <= self.source@.len()
        &&& self.source@.len() + 2 <= u32::MAX
        &&& 1 <= self.line
        &&& self.line as int <= self.current as int + 1
    }

    /// A scanner at the start of `source`, before any token.
    pub fn new(source: String) -> (s: Self)
        requires
            source@.len() + 2 <= u32::MAX,
        ensures
            s.wf(),
            s.source@ == source@,
            s.start == 0,
            s.current == 0,
            s.line == 1,
            s.tokens@ == Seq::<Token>::empty(),
            s.diagnostics@ == Seq::<Diagnostic>::empty(),
    {
        Scanner {
            source,
            start: 0,
            current: 0,
            line: 1,
            tokens: Vec::new(),
            diagnostics: Vec::new(),
        }
    }

    /// Whether the cursor has reached end-of-input.
    pub fn is_at_end(&self) -> (b: bool)
        ensures
            b == (self.current >= self.source@.len()),
    {
        self.current >= self.source.as_str().unicode_len()
    }

    /// The character under the cursor, or the null character at end-of-input.
    fn peek(&self) -> (c: char)
        ensures
            c == (if self.current < self.source@.len() {
                self.source@[self.current as int]
            } else {
                '\0'
            }),
    {
        if self.current >= self.source.as_str().unicode_len() {
            '\0'
        } else {
            self.source.as_str().get_char(self.current)
        }
    }

    /// The character after the cursor, or the null character past the end.
    fn peek_next(&self) -> (c: char)
        requires
            self.current < usize::MAX,
        ensures
            c == (if self.current + 1 < self.source@.len() {
                self.source@[self.current as int + 1]
            } else {
                '\0'
            }),
    {
        if self.current + 1 >= self.source.as_str().unicode_len() {
            '\0'
        } else {
            self.source.as_str().get_char(self.current + 1)
        }
    }

    /// Consumes and returns the character under the cursor.
    fn advance(&mut self) -> (c: char)
        requires
            old(self).current < old(self).source@.len(),
            old(self).current < usize::MAX,
        ensures
            final(self).source@ == old(self).source@,
            final(self).start == old(self).start,
            final(self).line == old(self).line,
            final(self).tokens@ == old(self).tokens@,
            final(self).diagnostics@ == old(self).diagnostics@,
            final(self).current == old(self).current + 1,
            c == old(self).source@[old(self).current as int],
    {
        let c = self.source.as_str().get_char(self.current);
        self.current = self.current + 1;
        c
    }

    /// Consumes the character under the cursor when it is exactly `c`.
    fn match_token(&mut self, c: char) -> (b: bool)
        requires
            old(self).wf(),
        ensures
            final(self).wf(),
            final(self).source@ == old(self).source@,
            final(self).start == old(self).start,
            final(self).line == old(self).line,
            final(self).tokens@ == old(self).tokens@,
            final(self).diagnostics@ == old(self).diagnostics@,
            b == (old(self).current < old(self).source@.len() && old(self).source@[old(
                self,
            ).current as int] == c),
            final(self).current as int == (if b {
                old(self).current + 1
            } else {
                old(self).current as int
            }),
    {
        if self.peek() != c || self.is_at_end() {
            return false;
        }
        self.current = self.current + 1;
        true
    }

    /// Appends a token of kind `token_type` spanning `start..current`, with
    /// the given literal payload (empty when absent), at the current line.
    fn add_token(&mut self, token_type: token_type, literal: Option<String>)
        requires
            old(self).wf(),
        ensures
            final(self).wf(),
            final(self).source@ == old(self).source@,
            final(self).start == old(self).start,
            final(self).current == old(self).current,
            final(self).line == old(self).line,
            final(self).diagnostics@ == old(self).diagnostics@,
            tokens_view(final(self).tokens@) == tokens_view(old(self).tokens@) + seq![
                SpecToken {
                    kind: token_type,
                    lexeme: old(self).source@.subrange(
                        old(self).start as int,
                        old(self).current as int,
                    ),
                    literal: (match literal {
                        Some(l) => l@,
                        None => Seq::<char>::empty(),
                    }),
                    line: old(self).line,
                },
            ],
    {
        let lexeme: String = self.source.as_str().substring_char(self.start, self.current)
            .to_owned();
        let lit: String = match literal {
            Some(l) => l,
            None => String::new(),
        };
        let t = Token::new(lit, self.line, token_type, lexeme);
        let ghost tv = t@;
        self.tokens.push(t);
        proof {
            assert(tokens_view(self.tokens@) =~= tokens_view(old(self).tokens@) + seq![tv]);
        }
    }

    /// The keyword kind spelled exactly `text`, if any.
    fn match_string_token(&self, text: &str) -> (r: Option<token_type>)
        ensures
            r == spec_keyword(text@),
    {
        let t: String = text.to_owned();
        if t == String::from_str("and") {
            Some(token_type::AND)
        } else if t == String::from_str("or") {
            Some(token_type::OR)
        } else if t == String::from_str("fun") {
            Some(token_type::FUN)
        } else if t == String::from_str("class") {
            Some(token_type::CLASS)
        } else if t == String::from_str("if") {
            Some(token_type::IF)
        } else if t == String::from_str("else") {
            Some(token_type::ELSE)
        } else if t == String::from_str("true") {
            Some(token_type::TRUE)
        } else if t == String::from_str("false") {
            Some(token_type::FALSE)
        } else if t == String::from_str("super") {
            Some(token_type::SUPER)
        } else if t == String::from_str("return") {
            Some(token_type::RETURN)
        } else if t == String::from_str("this") {
            Some(token_type::THIS)
        } else if t == String::from_str("var") {
            Some(token_type::VAR)
        } else if t == String::from_str("while") {
            Some(token_type::WHILE)
        } else if t == String::from_str("for") {
            Some(token_type::FOR)
        } else if t == String::from_str("print") {
            Some(token_type::PRINT)
        } else {
            None
        }
    }

    /// Scans the rest of a number whose first digit was just consumed.
    fn number(&mut self)
        requires
            old(self).wf(),
            old(self).start < old(self).source@.len(),
            old(self).current == old(self).start + 1,
            is_digit(old(self).source@[old(self).start as int]),
        ensures
            final(self).wf(),
            final(self).source@ == old(self).source@,
            final(self).start == old(self).start,
            final(self).line == old(self).line,
            final(self).diagnostics@ == old(self).diagnostics@,
            ({
                let st = number_step(old(self).source@, old(self).start as int, old(self).line);
                &&& final(self).current as int == st.next
                &&& tokens_view(final(self).tokens@) == tokens_view(old(self).tokens@) + opt_tok(
                    st.token,
                )
            }),
    {
        let ghost src = self.source@;
        let ghost s0 = self.start as int;
        while !self.is_at_end() && digit_char(self.peek())
            invariant
                self.wf(),
                self.source@ == src,
                self.start as int == s0,
                self.line == old(self).line,
                self.tokens@ == old(self).tokens@,
                self.diagnostics@ == old(self).diagnostics@,
                s0 + 1 <= self.current as int <= src.len(),
                digits_end(src, s0 + 1) == digits_end(src, self.current as int),
            decreases src.len() - self.current,
        {
            let _ = self.advance();
        }
        let ghost j = digits_end(src, s0 + 1);
        proof {
            lemma_digits_end_bounds(src, s0 + 1);
            assert(self.current as int == j);
        }
        if self.peek() == '.' && digit_char(self.peek_next()) {
            let _ = self.advance();
            while !self.is_at_end() && digit_char(self.peek())
                invariant
                    self.wf(),
                    self.source@ == src,
                    self.start as int == s0,
                    self.line == old(self).line,
                    self.tokens@ == old(self).tokens@,
                    self.diagnostics@ == old(self).diagnostics@,
                    j + 1 <= self.current as int <= src.len(),
                    digits_end(src, j + 1) == digits_end(src, self.current as int),
                decreases src.len() - self.current,
            {
                let _ = self.advance();
            }
            proof {
                lemma_digits_end_bounds(src, j + 1);
            }
        }
        let lit = self.source.as_str().substring_char(self.start, self.current).to_owned();
        self.add_token(token_type::NUMBER, Some(lit));
    }

    /// Scans the rest of an identifier or keyword whose first character was
    /// just consumed.
    fn identifier(&mut self)
        requires
            old(self).wf(),
            old(self).start < old(self).source@.len(),
            old(self).current == old(self).start + 1,
            is_alpha(old(self).source@[old(self).start as int]),
        ensures
            final(self).wf(),
            final(self).source@ == old(self).source@,
            final(self).start == old(self).start,
            final(self).line == old(self).line,
            final(self).diagnostics@ == old(self).diagnostics@,
            ({
                let st = ident_step(old(self).source@, old(self).start as int, old(self).line);
                &&& final(self).current as int == st.next
                &&& tokens_view(final(self).tokens@) == tokens_view(old(self).tokens@) + opt_tok(
                    st.token,
                )
            }),
    {
        let ghost src = self.source@;
        let ghost s0 = self.start as int;
        while !self.is_at_end() && alnum_char(self.peek())
            invariant
                self.wf(),
                self.source@ == src,
                self.start as int == s0,
                self.line == old(self).line,
                self.tokens@ == old(self).tokens@,
                self.diagnostics@ == old(self).diagnostics@,
                s0 + 1 <= self.current as int <= src.len(),
                ident_end(src, s0 + 1) == ident_end(src, self.current as int),
            decreases src.len() - self.current,
        {
            let _ = self.advance();
        }
        proof {
            lemma_ident_end_bounds(src, s0 + 1);
        }
        let sub = self.source.as_str().substring_char(self.start, self.current);
        let kind = self.match_string_token(sub);
        match kind {
            Some(n) => self.add_token(n, None),
            None => self.add_token(token_type::IDENTIFIER, None),
        }
    }

    /// Scans the rest of a string literal whose opening quote was just
    /// consumed: up to the closing quote, or to end-of-input with an
    /// unterminated-string diagnostic.
    fn string_token(&mut self)
        requires
            old(self).wf(),
            old(self).start < old(self).source@.len(),
            old(self).current == old(self).start + 1,
            old(self).source@[old(self).start as int] == '"',
        ensures
            final(self).wf(),
            final(self).source@ == old(self).source@,
            final(self).start == old(self).start,
            ({
                let st = string_step(old(self).source@, old(self).start as int, old(self).line);
                &&& final(self).current as int == st.next
                &&& final(self).line == st.line
                &&& tokens_view(final(self).tokens@) == tokens_view(old(self).tokens@) + opt_tok(
                    st.token,
                )
                &&& diags_view(final(self).diagnostics@) == diags_view(old(self).diagnostics@)
                    + opt_diag(st.diag)
            }),
    {
        let ghost src = self.source@;
        let ghost s0 = self.start as int;
        let ghost l0 = self.line;
        proof {
            lemma_find_char_bounds(src, s0 + 1, '"');
        }
        let ghost q = find_char(src, s0 + 1, '"');
        while !self.is_at_end() && self.peek() != '"'
            invariant
                self.wf(),
                self.source@ == src,
                self.start as int == s0,
                self.tokens@ == old(self).tokens@,
                self.diagnostics@ == old(self).diagnostics@,
                s0 + 1 <= self.current as int <= src.len(),
                find_char(src, s0 + 1, '"') == find_char(src, self.current as int, '"'),
                self.line as int == l0 + newlines_in(src, s0 + 1, self.current as int),
            decreases src.len() - self.current,
        {
            let ghost cbefore = self.current as int;
            proof {
                lemma_newlines_bounds(src, s0 + 1, cbefore);
            }
            if self.peek() == '\n' {
                self.line = self.line + 1;
            }
            let _ = self.advance();
            proof {
                lemma_newlines_split(src, s0 + 1, cbefore, cbefore + 1);
                assert(newlines_in(src, cbefore + 1, cbefore + 1) == 0);
            }
        }
        proof {
            lemma_newlines_bounds(src, s0 + 1, self.current as int);
        }
        if self.is_at_end() {
            assert(q == src.len());
            let d = error(self.line, "Unterminated string.");
            let ghost dv = d@;
            self.diagnostics.push(d);
            proof {
                assert(diags_view(self.diagnostics@) =~= diags_view(old(self).diagnostics@)
                    + seq![dv]);
            }
            let lit = self.source.as_str().substring_char(self.start + 1, self.current).to_owned();
            self.add_token(token_type::STRING, Some(lit));
        } else {
            assert(q == self.current as int);
            let _ = self.advance();
            let lit = self.source.as_str().substring_char(self.start + 1, self.current - 1)
                .to_owned();
            self.add_token(token_type::STRING, Some(lit));
        }
    }

    /// Scans one token (or comment, whitespace, or invalid character) from
    /// the position where `start` and `current` both stand.
    pub fn scan_token(&mut self)
        requires
            old(self).wf(),
            old(self).start == old(self).current,
            old(self).current < old(self).source@.len(),
        ensures
            final(self).wf(),
            final(self).source@ == old(self).source@,
            final(self).start == old(self).start,
            ({
                let st = spec_step(old(self).source@, old(self).current as int, old(self).line);
                &&& final(self).current as int == st.next
                &&& final(self).line == st.line
                &&& tokens_view(final(self).tokens@) == tokens_view(old(self).tokens@) + opt_tok(
                    st.token,
                )
                &&& diags_view(final(self).diagnostics@) == diags_view(old(self).diagnostics@)
                    + opt_diag(st.diag)
            }),
    {
        proof {
            assert(tokens_view(old(self).tokens@) + Seq::<SpecToken>::empty() =~= tokens_view(
                old(self).tokens@,
            ));
            assert(diags_view(old(self).diagnostics@) + Seq::<SpecDiag>::empty() =~= diags_view(
                old(self).diagnostics@,
            ));
        }
        let c = self.advance();
        match c {
            '(' => self.add_token(token_type::LEFT_PAREN, None),
            ')' => self.add_token(token_type::RIGHT_PAREN, None),
            '{' => self.add_token(token_type::LEFT_BRACE, None),
            '}' => self.add_token(token_type::RIGHT_BRACE, None),
            ',' => self.add_token(token_type::COMMA, None),
            '.' => self.add_token(token_type::DOT, None),
            ';' => self.add_token(token_type::SEMICOLON, None),
            '-' => self.add_token(token_type::MINUS, None),
            '+' => self.add_token(token_type::PLUS, None),
            '*' => self.add_token(token_type::STAR, None),
            '!' => {
                if self.match_token('=') {
                    self.add_token(token_type::BANG_EQUAL, None);
                } else {
                    self.add_token(token_type::BANG, None);
                }
            },
            '=' => {
                if self.match_token('=') {
                    self.add_token(token_type::EQUAL_EQUAL, None);
                } else {
                    self.add_token(token_type::EQUAL, None);
                }
            },
            '<' => {
                if self.match_token('=') {
                    self.add_token(token_type::LESS_EQUAL, None);
                } else {
                    self.add_token(token_type::LESS, None);
                }
            },
            '>' => {
                if self.match_token('=') {
                    self.add_token(token_type::GREATER_EQUAL, None);
                } else {
                    self.add_token(token_type::GREATER, None);
                }
            },
            '/' => {
                if self.match_token('/') {
                    let ghost src = self.source@;
                    let ghost i2 = self.current as int;
                    while !self.is_at_end() && self.peek() != '\n'
                        invariant
                            self.wf(),
                            self.source@ == src,
                            self.start == old(self).start,
                            self.line == old(self).line,
                            self.tokens@ == old(self).tokens@,
                            self.diagnostics@ == old(self).diagnostics@,
                            i2 <= self.current as int <= src.len(),
                            find_char(src, i2, '\n') == find_char(src, self.current as int, '\n'),
                        decreases src.len() - self.current,
                    {
                        let _ = self.advance();
                    }
                } else {
                    self.add_token(token_type::SLASH, None);
                }
            },
            '\n' => {
                self.line = self.line + 1;
            },
            ' ' => {},
            '\r' => {},
            '\t' => {},
            '"' => self.string_token(),
            _ => {
                if digit_char(c) {
                    self.number();
                } else if alpha_char(c) {
                    self.identifier();
                } else {
                    let d = error(self.line, "Unexpected character.");
                    let ghost dv = d@;
                    self.diagnostics.push(d);
                    proof {
                        assert(diags_view(self.diagnostics@) =~= diags_view(
                            old(self).diagnostics@,
                        ) + seq![dv]);
                    }
                }
            },
        }
    }

    /// Scans the whole source: the token sequence `spec_tokens` describes
    /// (always ending with exactly one end-marker) and the diagnostics
    /// `spec_diags` describes.
    pub fn scan_tokens(&mut self) -> (r: &Vec<Token>)
        requires
            old(self).wf(),
            old(self).current == 0,
            old(self).line == 1,
            old(self).tokens@.len() == 0,
            old(self).diagnostics@.len() == 0,
        ensures
            final(self).wf(),
            final(self).source@ == old(self).source@,
            tokens_view(final(self).tokens@) == spec_tokens(old(self).source@),
            diags_view(final(self).diagnostics@) == spec_diags(old(self).source@),
            crate::token::stream_wf(tokens_view(final(self).tokens@)),
            r@ == final(self).tokens@,
    {
        let ghost src = self.source@;
        proof {
            assert(tokens_view(self.tokens@) =~= Seq::<SpecToken>::empty());
            assert(diags_view(self.diagnostics@) =~= Seq::<SpecDiag>::empty());
            assert(Seq::<SpecToken>::empty() + spec_scan_from(src, 0, 1).tokens =~= spec_scan_from(
                src,
                0,
                1,
            ).tokens);
            assert(Seq::<SpecDiag>::empty() + spec_scan_from(src, 0, 1).diags =~= spec_scan_from(
                src,
                0,
                1,
            ).diags);
        }
        while !self.is_at_end()
            invariant
                self.wf(),
                self.source@ == src,
                spec_tokens(src) == tokens_view(self.tokens@) + spec_scan_from(
                    src,
                    self.current as int,
                    self.line,
                ).tokens,
                spec_diags(src) == diags_view(self.diagnostics@) + spec_scan_from(
                    src,
                    self.current as int,
                    self.line,
                ).diags,
            decreases src.len() - self.current,
        {
            self.start = self.current;
            let ghost cur = self.current as int;
            let ghost ln = self.line;
            let ghost toks0 = tokens_view(self.tokens@);
            let ghost dgs0 = diags_view(self.diagnostics@);
            proof {
                lemma_step_props(src, cur, ln);
            }
            self.scan_token();
            proof {
                let st = spec_step(src, cur, ln);
                let rest = spec_scan_from(src, st.next, st.line);
                assert(spec_scan_from(src, cur, ln).tokens == opt_tok(st.token) + rest.tokens);
                assert(toks0 + (opt_tok(st.token) + rest.tokens) =~= (toks0 + opt_tok(st.token))
                    + rest.tokens);
                assert(dgs0 + (opt_diag(st.diag) + rest.diags) =~= (dgs0 + opt_diag(st.diag))
                    + rest.diags);
            }
        }
        let ghost toksb = tokens_view(self.tokens@);
        let ghost dgsb = diags_view(self.diagnostics@);
        let eof_line = self.line;
        let t = Token::new(String::new(), eof_line, token_type::EOF, String::new());
        let ghost tv = t@;
        self.tokens.push(t);
        proof {
            assert(self.current as int == src.len());
            assert(tv == eof_token(eof_line));
            assert(tokens_view(self.tokens@) =~= toksb + seq![tv]);
            assert(dgsb + Seq::<SpecDiag>::empty() =~= dgsb);
            lemma_tokens_well_terminated(src);
        }
        &self.tokens
    }
}

} // verus!
