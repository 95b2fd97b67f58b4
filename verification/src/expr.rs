use crate::token::{SpecToken, Token};
use vstd::prelude::*;

verus! {

/// An expression tree.  Each node exclusively owns its children; grouping
/// parentheses are preserved as their own node so the source structure is
/// recoverable.
#[derive(Debug, PartialEq)]
pub enum Expr {
    Literal(Literal),
    Unary(Token, Box<Expr>),
    Binary(Box<Expr>, Token, Box<Expr>),
    Grouping(Box<Expr>),
}

/// A literal value.  A number keeps the exact matched text of the token;
/// consumers read it as a 64-bit float.
#[derive(Debug, PartialEq)]
pub enum Literal {
    Number(String),
    Str(String),
    True,
    False,
    Nil,
}

/// Mathematical model of a literal.
pub enum GLit {
    Number(Seq<char>),
    Str(Seq<char>),
    True,
    False,
    Nil,
}

/// Mathematical model of an expression tree.
pub enum GExpr {
    Literal(GLit),
    Unary(SpecToken, Box<GExpr>),
    Binary(Box<GExpr>, SpecToken, Box<GExpr>),
    Grouping(Box<GExpr>),
}

impl Literal {
    /// The model of this literal.
    pub open spec fn model(&self) -> GLit {
        match self {
            Literal::Number(s) => GLit::Number(s@),
            Literal::Str(s) => GLit::Str(s@),
            Literal::True => GLit::True,
            Literal::False => GLit::False,
            Literal::Nil => GLit::Nil,
        }
    }
}

impl Expr {
    /// The mathematical tree this node represents.
    pub open spec fn model(&self) -> GExpr
        decreases self,
    {
        match self {
            Expr::Literal(l) => GExpr::Literal(l.model()),
            Expr::Unary(op, sub) => GExpr::Unary(op@, Box::new(sub.model())),
            Expr::Binary(lhs, op, rhs) => GExpr::Binary(
                Box::new(lhs.model()),
                op@,
                Box::new(rhs.model()),
            ),
            Expr::Grouping(inner) => GExpr::Grouping(Box::new(inner.model())),
        }
    }
}

/// The operator of a unary expression node.
#[derive(Debug, Copy, Clone)]
pub enum UnaryOpTy {
    Minus,
    Bang,
}

/// A unary operator together with where it appeared in the source.
#[derive(Debug, Copy, Clone)]
pub struct UnaryOp {
    pub ty: UnaryOpTy,
    pub line: usize,
    pub col: i64,
}

/// The operator of a binary expression node.
#[derive(Debug, Copy, Clone)]
pub enum BinaryOpTy {
    EqualEqual,
    NotEqual,
    Less,
    LessEqual,
    Greater,
    GreaterEqual,
    Plus,
    Minus,
    Star,
    Slash,
}

/// A binary operator together with where it appeared in the source.
#[derive(Debug, Copy, Clone)]
pub struct BinaryOp {
    pub ty: BinaryOpTy,
    pub line: usize,
    pub col: i64,
}

} // verus!
