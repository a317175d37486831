//! The operator catalog: which single-character tokens are operators or
//! grouping symbols, and how strongly each operator binds.

use vstd::prelude::*;
use vstd::string::StrSliceExecFns;
use std::cmp::Ordering;

verus! {

/// The closed set of binary operators the parser recognizes.
#[derive(Clone, Copy, Debug, PartialEq, Eq, Structural)]
pub enum Operator {
    Add,
    Sub,
    Mul,
    Div,
    Exp,
}

/// What a single token is to the parser: an operator, one of the two
/// grouping delimiters, or an ordinary term (identifier) kept verbatim.
#[derive(Clone, Copy, Debug, PartialEq, Eq, Structural)]
pub enum TokenKind {
    Op(Operator),
    OpenGroup,
    CloseGroup,
    Term,
}

/// Classification of a token's text.  Only the seven one-character symbols
/// `+ - * / ^ ( )` are special; every other text, including multi-character
/// names and numeric literals, is a term.
pub open spec fn classify_sym(t: Seq<char>) -> TokenKind {
    if t.len() == 1 {
        let c = t[0];
        if c == '+' {
            TokenKind::Op(Operator::Add)
        } else if c == '-' {
            TokenKind::Op(Operator::Sub)
        } else if c == '*' {
            TokenKind::Op(Operator::Mul)
        } else if c == '/' {
            TokenKind::Op(Operator::Div)
        } else if c == '^' {
            TokenKind::Op(Operator::Exp)
        } else if c == '(' {
            TokenKind::OpenGroup
        } else if c == ')' {
            TokenKind::CloseGroup
        } else {
            TokenKind::Term
        }
    } else {
        TokenKind::Term
    }
}

/// The operator a token stands for, if any.
pub open spec fn op_of_sym(t: Seq<char>) -> Option<Operator> {
    match classify_sym(t) {
        TokenKind::Op(op) => Some(op),
        _ => None,
    }
}

pub open spec fn is_open_sym(t: Seq<char>) -> bool {
    classify_sym(t) == TokenKind::OpenGroup
}

pub open spec fn is_close_sym(t: Seq<char>) -> bool {
    classify_sym(t) == TokenKind::CloseGroup
}

pub open spec fn is_term_sym(t: Seq<char>) -> bool {
    classify_sym(t) == TokenKind::Term
}

/// The three-way comparison of two operators' precedence ranks.
pub open spec fn cmp_prec(a: Operator, b: Operator) -> Ordering {
    if a.spec_precedence() < b.spec_precedence() {
        Ordering::Less
    } else if a.spec_precedence() == b.spec_precedence() {
        Ordering::Equal
    } else {
        Ordering::Greater
    }
}

impl Operator {
    /// Binding strength; a higher rank binds its operands tighter.
    pub open spec fn spec_precedence(self) -> int {
        match self {
            Operator::Add | Operator::Sub => 10,
            Operator::Mul | Operator::Div => 100,
            Operator::Exp => 1000,
        }
    }

    /// The fixed precedence rank: 10 for `+ -`, 100 for `* /`, 1000 for `^`.
    pub fn precedence(&self) -> (p: i64)
        ensures
            p == self.spec_precedence(),
    {
        match self {
            Operator::Add | Operator::Sub => 10,
            Operator::Mul | Operator::Div => 100,
            Operator::Exp => 1000,
        }
    }

    /// The operator a token stands for, or `None` for every token outside
    /// the operator symbol set (identifiers and grouping symbols included).
    pub fn maybe(s: &str) -> (r: Option<Operator>)
        ensures
            r == op_of_sym(s@),
    {
        match classify(s) {
            TokenKind::Op(op) => Some(op),
            _ => None,
        }
    }

    /// Compares two operators by precedence rank alone; operators of equal
    /// rank (`+` vs `-`, `*` vs `/`) compare equal.
    pub fn cmp_precedence(&self, other: &Operator) -> (r: Ordering)
        ensures
            r == cmp_prec(*self, *other),
    {
        let a = self.precedence();
        let b = other.precedence();
        if a < b {
            Ordering::Less
        } else if a == b {
            Ordering::Equal
        } else {
            Ordering::Greater
        }
    }
}

/// Classifies one token's text, exhaustively.
pub fn classify(s: &str) -> (k: TokenKind)
    ensures
        k == classify_sym(s@),
{
    if s.unicode_len() == 1 {
        let c = s.get_char(0);
        if c == '+' {
            TokenKind::Op(Operator::Add)
        } else if c == '-' {
            TokenKind::Op(Operator::Sub)
        } else if c == '*' {
            TokenKind::Op(Operator::Mul)
        } else if c == '/' {
            TokenKind::Op(Operator::Div)
        } else if c == '^' {
            TokenKind::Op(Operator::Exp)
        } else if c == '(' {
            TokenKind::OpenGroup
        } else if c == ')' {
            TokenKind::CloseGroup
        } else {
            TokenKind::Term
        }
    } else {
        TokenKind::Term
    }
}

} // verus!
