use crate::token::{token_type, SpecToken, Token};
use vstd::prelude::*;
use vstd::string::StringExecFns;

verus! {

/// Kinds of failure the front end can signal to its caller.
pub enum ErrorTypes {
    UnexpectedTokenError,
}

/// Mathematical model of a diagnostic: the 1-based line, a location context
/// such as `" at 'x'"` or `" at end"`, and the message.
pub struct SpecDiag {
    pub line: u32,
    pub location: Seq<char>,
    pub message: Seq<char>,
}

/// A reported error.  The front end never prints: it hands these records to
/// the caller, which owns the error state of each run.
#[derive(Debug, PartialEq)]
pub struct Diagnostic {
    pub line: u32,
    pub location: String,
    pub message: String,
}

impl View for Diagnostic {
    type V = SpecDiag;

    open spec fn view(&self) -> SpecDiag {
        SpecDiag { line: self.line, location: self.location@, message: self.message@ }
    }
}

impl Clone for Diagnostic {
    fn clone(&self) -> (r: Self)
        ensures
            r@ == self@,
    {
        Diagnostic {
            line: self.line,
            location: self.location.clone(),
            message: self.message.clone(),
        }
    }
}

/// The sequence of diagnostic models behind a sequence of diagnostics.
pub open spec fn diags_view(s: Seq<Diagnostic>) -> Seq<SpecDiag> {
    s.map_values(|d: Diagnostic| d@)
}

/// Model of `token_error`: an error at the end-marker reads " at end";
/// any other names the offending lexeme.
pub open spec fn token_error_model(t: SpecToken, msg: Seq<char>) -> SpecDiag {
    if t.kind == token_type::EOF {
        SpecDiag { line: t.line, location: " at end"@, message: msg }
    } else {
        SpecDiag { line: t.line, location: " at '"@ + t.lexeme + "'"@, message: msg }
    }
}

/// The diagnostic for a lexical error at a line, with no location context.
pub fn error(line: u32, message: &str) -> (d: Diagnostic)
    ensures
        d@ == (SpecDiag { line, location: Seq::<char>::empty(), message: message@ }),
{
    Diagnostic { line, location: String::new(), message: message.to_owned() }
}

/// The diagnostic for a syntax error at a token, naming the offending
/// lexeme, or " at end" when the token is the end-marker.
pub fn token_error(token: &Token, message: &str) -> (d: Diagnostic)
    ensures
        d@ == token_error_model(token@, message@),
{
    if token.token_type == token_type::EOF {
        Diagnostic {
            line: token.line,
            location: String::from_str(" at end"),
            message: message.to_owned(),
        }
    } else {
        let mut location = String::from_str(" at '");
        location.append(token.lexeme.as_str());
        location.append("'");
        Diagnostic { line: token.line, location, message: message.to_owned() }
    }
}

} // verus!
