//! The recursive-descent parser and the parenthetical matcher.
//!
//! `parse` consumes one primary term (identifier or parenthesized group),
//! then, if an operator follows, parses the remainder of the stream and
//! hands the three pieces to the tree composer.  The whole behaviour is
//! pinned by the spec functions [`parse_model`] and [`after_term_model`].

use vstd::prelude::*;
use crate::ops::{classify, classify_sym, op_of_sym, is_open_sym, is_close_sym, Operator, TokenKind};
use crate::tree::{compose_model, compose_with_precedence, Expr, Node};

verus! {

/// Why a parse failed.  Every failure aborts the whole parse; there is no
/// recovery and no partial result.
#[derive(Clone, Copy, Debug, PartialEq, Eq, Structural)]
pub enum ParseError {
    /// `parse` was invoked on zero tokens, or an operator or a group had no
    /// following operand.
    EmptyStream,
    /// An operator token stood where a term was expected; unary operators
    /// are unsupported by design.
    LeadingOperator,
    /// A close-group token stood where a term was expected.
    UnmatchedClose,
    /// An open-group token whose matching close is never found.
    UnmatchedOpen,
    /// A token followed a completed term but was not a recognized operator.
    ExpectedOperator,
}

/// Position of the close-group symbol that balances `depth` open ones still
/// outstanding, scanning `toks` from position `i`; `None` when the depth
/// never falls to zero before the stream ends.
pub open spec fn close_index_from(toks: Seq<Seq<char>>, i: int, depth: int) -> Option<int>
    decreases toks.len() - i,
{
    if i < 0 || i >= toks.len() {
        None
    } else if is_close_sym(toks[i]) {
        if depth == 1 {
            Some(i)
        } else {
            close_index_from(toks, i + 1, depth - 1)
        }
    } else if is_open_sym(toks[i]) {
        close_index_from(toks, i + 1, depth + 1)
    } else {
        close_index_from(toks, i + 1, depth)
    }
}

/// Position of the close-group symbol matching an open one consumed just
/// before `toks` begins.
pub open spec fn close_index(toks: Seq<Seq<char>>) -> Option<int> {
    close_index_from(toks, 0, 1)
}

/// A found matching close lies at or after the scan start, inside the
/// stream, and holds a close-group symbol.
pub proof fn lemma_close_index_from_bounds(toks: Seq<Seq<char>>, i: int, depth: int)
    requires
        0 <= i,
    ensures
        match close_index_from(toks, i, depth) {
            Some(j) => i <= j < toks.len() && is_close_sym(toks[j]),
            None => true,
        },
    decreases toks.len() - i,
{
    if i >= toks.len() {
    } else if is_close_sym(toks[i]) {
        if depth != 1 {
            lemma_close_index_from_bounds(toks, i + 1, depth - 1);
        }
    } else if is_open_sym(toks[i]) {
        lemma_close_index_from_bounds(toks, i + 1, depth + 1);
    } else {
        lemma_close_index_from_bounds(toks, i + 1, depth);
    }
}

/// What parsing a token stream yields: the parse tree of the whole stream,
/// or the error the stream's shape forces.
pub open spec fn parse_model(toks: Seq<Seq<char>>) -> Result<Expr, ParseError>
    decreases toks.len(),
{
    if toks.len() == 0 {
        Err(ParseError::EmptyStream)
    } else {
        match classify_sym(toks[0]) {
            TokenKind::Op(_) => Err(ParseError::LeadingOperator),
            TokenKind::CloseGroup => Err(ParseError::UnmatchedClose),
            TokenKind::OpenGroup => match close_index(toks.drop_first()) {
                None => Err(ParseError::UnmatchedOpen),
                Some(ci) => {
                    proof {
                        lemma_close_index_from_bounds(toks.drop_first(), 0, 1);
                    }
                    match parse_model(toks.subrange(1, 1 + ci)) {
                        Err(e) => Err(e),
                        Ok(inner) => after_term_model(
                            Expr::Group(Box::new(inner)),
                            toks.subrange(2 + ci, toks.len() as int),
                        ),
                    }
                },
            },
            TokenKind::Term => after_term_model(Expr::Leaf(toks[0]), toks.drop_first()),
        }
    }
}

/// What follows a completed term `left`: the end of the stream returns
/// `left` itself; otherwise a recognized operator must follow, the rest of
/// the stream is parsed in full, and the composer joins the pieces.
pub open spec fn after_term_model(left: Expr, rest: Seq<Seq<char>>) -> Result<Expr, ParseError>
    decreases rest.len(),
{
    if rest.len() == 0 {
        Ok(left)
    } else {
        match op_of_sym(rest[0]) {
            None => Err(ParseError::ExpectedOperator),
            Some(op) => match parse_model(rest.drop_first()) {
                Err(e) => Err(e),
                Ok(into) => Ok(compose_model(op, left, into)),
            },
        }
    }
}

/// What matching and parsing a parenthetical yields on the token stream
/// that follows an already-consumed open-group symbol: the grouped tree of
/// everything strictly before the matching close, and the tokens strictly
/// after it.
pub open spec fn parse_parenthetical_model(toks: Seq<Seq<char>>) -> Result<
    (Expr, Seq<Seq<char>>),
    ParseError,
> {
    match close_index(toks) {
        None => Err(ParseError::UnmatchedOpen),
        Some(ci) => match parse_model(toks.subrange(0, ci)) {
            Err(e) => Err(e),
            Ok(inner) => Ok(
                (Expr::Group(Box::new(inner)), toks.subrange(ci + 1, toks.len() as int)),
            ),
        },
    }
}

/// Parses a whole token stream into a tree, or reports exactly the failure
/// that [`parse_model`] assigns to the stream.
pub fn parse(toks: &[String]) -> (r: Result<Node, ParseError>)
    ensures
        (match r {
            Ok(n) => parse_model(toks.deep_view()) == Ok::<Expr, ParseError>(n@),
            Err(e) => parse_model(toks.deep_view()) == Err::<Expr, ParseError>(e),
        }),
    decreases toks@.len(),
{
    let ghost tv = toks.deep_view();
    if toks.len() == 0 {
        return Err(ParseError::EmptyStream);
    }
    proof {
        assert(tv[0] == toks@[0]@);
        assert(tv.len() == toks@.len());
    }
    let n: usize = toks.len();
    let (left, remaining): (Node, &[String]) = match classify(toks[0].as_str()) {
        TokenKind::Op(_) => {
            return Err(ParseError::LeadingOperator);
        },
        TokenKind::CloseGroup => {
            return Err(ParseError::UnmatchedClose);
        },
        TokenKind::OpenGroup => {
            let rest = &toks[1..n];
            proof {
                assert(rest.deep_view() =~= tv.drop_first());
                lemma_close_index_from_bounds(tv.drop_first(), 0, 1);
            }
            match parse_parenthetical(rest) {
                Err(e) => {
                    proof {
                        if let Some(ci) = close_index(tv.drop_first()) {
                            assert(tv.subrange(1, 1 + ci) =~= tv.drop_first().subrange(0, ci));
                        }
                    }
                    return Err(e);
                },
                Ok(p) => {
                    proof {
                        let ci = close_index(tv.drop_first())->Some_0;
                        assert(tv.subrange(1, 1 + ci) =~= tv.drop_first().subrange(0, ci));
                        assert(tv.subrange(2 + ci, tv.len() as int) =~= tv.drop_first().subrange(
                            ci + 1,
                            tv.drop_first().len() as int,
                        ));
                    }
                    p
                },
            }
        },
        TokenKind::Term => {
            let leaf = Node::Leaf(toks[0].clone());
            let rest = &toks[1..n];
            proof {
                assert(rest.deep_view() =~= tv.drop_first());
            }
            (leaf, rest)
        },
    };
    assert(parse_model(tv) == after_term_model(left@, remaining.deep_view()));
    assert(remaining@.len() < toks@.len());
    let ghost rv = remaining.deep_view();
    if remaining.len() == 0 {
        return Ok(left);
    }
    proof {
        assert(rv[0] == remaining@[0]@);
    }
    match Operator::maybe(remaining[0].as_str()) {
        None => Err(ParseError::ExpectedOperator),
        Some(op) => {
            let rest2 = &remaining[1..remaining.len()];
            proof {
                assert(rest2.deep_view() =~= rv.drop_first());
            }
            match parse(rest2) {
                Err(e) => Err(e),
                Ok(into) => Ok(compose_with_precedence(op, left, into)),
            }
        },
    }
}

/// Matches the parenthetical that an already-consumed open-group symbol
/// begins: finds the balancing close, parses everything strictly inside it,
/// and returns the grouped tree with the tokens strictly after the close.
pub fn parse_parenthetical<'a>(toks: &'a [String]) -> (r: Result<
    (Node, &'a [String]),
    ParseError,
>)
    ensures
        (match r {
            Ok(p) => parse_parenthetical_model(toks.deep_view()) == Ok::<
                (Expr, Seq<Seq<char>>),
                ParseError,
            >((p.0@, p.1.deep_view())),
            Err(e) => parse_parenthetical_model(toks.deep_view()) == Err::<
                (Expr, Seq<Seq<char>>),
                ParseError,
            >(e),
        }),
    decreases toks@.len(),
{
    let ghost tv = toks.deep_view();
    let n: usize = toks.len();
    let mut i: usize = 0;
    let mut depth: u128 = 1;
    let mut close_pos: Option<usize> = None;

    while i < n && close_pos.is_none()
        invariant
            n == toks@.len(),
            tv == toks.deep_view(),
            i <= n,
            1 <= depth <= i + 1,
            match close_pos {
                None => close_index(tv) == close_index_from(tv, i as int, depth as int),
                Some(cp) => cp < n && close_index(tv) == Some(cp as int),
            },
        decreases n - i,
    {
        proof {
            assert(tv[i as int] == toks@[i as int]@);
        }
        match classify(toks[i].as_str()) {
            TokenKind::OpenGroup => {
                depth = depth + 1;
            },
            TokenKind::CloseGroup => {
                if depth == 1 {
                    close_pos = Some(i);
                } else {
                    depth = depth - 1;
                }
            },
            _ => {},
        }
        i = i + 1;
    }
    match close_pos {
        None => {
            assert(close_index(tv) is None);
            Err(ParseError::UnmatchedOpen)
        },
        Some(cp) => {
            let inner = &toks[0..cp];
            proof {
                assert(inner.deep_view() =~= tv.subrange(0, cp as int));
            }
            match parse(inner) {
                Err(e) => Err(e),
                Ok(node) => {
                    let after = &toks[cp + 1..n];
                    proof {
                        assert(after.deep_view() =~= tv.subrange(cp + 1, tv.len() as int));
                    }
                    Ok((Node::Parenthetical(Box::new(node)), after))
                },
            }
        },
    }
}

} // verus!
