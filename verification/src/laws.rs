//! Laws of the parser, stated over [`parse_model`].
//!
//! Each law quantifies over token texts and is pinned to the executable
//! parser by `parse`'s ensures clause: whatever `parse_model` assigns to a
//! stream is exactly what `parse` returns on it.

use vstd::prelude::*;
use crate::ops::{classify_sym, is_close_sym, is_open_sym, is_term_sym, op_of_sym, Operator, TokenKind};
use crate::parser::{
    after_term_model, close_index, close_index_from, lemma_close_index_from_bounds, parse_model,
    ParseError,
};
use crate::tree::{compose_model, leaves, Expr};

verus! {

/// The predicate that keeps exactly the term tokens of a stream.
pub open spec fn term_pred() -> spec_fn(Seq<char>) -> bool {
    |t: Seq<char>| is_term_sym(t)
}

/// The non-operator, non-delimiter tokens of a stream, in original order.
pub open spec fn term_tokens(toks: Seq<Seq<char>>) -> Seq<Seq<char>> {
    toks.filter(term_pred())
}

proof fn lemma_term_tokens_empty()
    ensures
        term_tokens(Seq::empty()) == Seq::<Seq<char>>::empty(),
{
    reveal(Seq::filter);
}

proof fn lemma_term_tokens_single(t: Seq<char>)
    ensures
        term_tokens(seq![t]) == if is_term_sym(t) {
            seq![t]
        } else {
            Seq::<Seq<char>>::empty()
        },
{
    reveal_with_fuel(Seq::<_>::filter, 2);
    assert(seq![t].drop_last() =~= Seq::<Seq<char>>::empty());
    if is_term_sym(t) {
        assert(Seq::<Seq<char>>::empty().push(t) =~= seq![t]);
    }
}

/// The composer neither drops, duplicates nor reorders leaf texts: the
/// left operand's leaves stand before those of the right-hand subtree,
/// whether or not a rotation happens.
pub proof fn lemma_compose_leaves(op: Operator, left: Expr, into: Expr)
    ensures
        leaves(compose_model(op, left, into)) == leaves(left) + leaves(into),
    decreases into,
{
    match into {
        Expr::Operation(sub_op, sub_left, sub_right) => {
            if op.spec_precedence() > sub_op.spec_precedence() {
                lemma_compose_leaves(op, left, *sub_left);
                assert((leaves(left) + leaves(*sub_left)) + leaves(*sub_right) =~= leaves(left) + (
                leaves(*sub_left) + leaves(*sub_right)));
            }
        },
        _ => {},
    }
}

/// A parsed tree's leaves, read left to right, are exactly the
/// non-operator, non-delimiter tokens of the input in original order.
pub proof fn lemma_parse_preserves_terms(toks: Seq<Seq<char>>)
    ensures
        match parse_model(toks) {
            Ok(e) => leaves(e) == term_tokens(toks),
            Err(_) => true,
        },
    decreases toks.len(), 1int,
{
    if toks.len() > 0 {
        lemma_parse_preserves_terms_nonempty(toks);
    }
}

proof fn lemma_parse_preserves_terms_nonempty(toks: Seq<Seq<char>>)
    requires
        toks.len() > 0,
    ensures
        match parse_model(toks) {
            Ok(e) => leaves(e) == term_tokens(toks),
            Err(_) => true,
        },
    decreases toks.len(), 0int,
{
    let first = toks[0];
    let rest = toks.drop_first();
    assert(toks =~= seq![first] + rest);
    Seq::filter_distributes_over_add(seq![first], rest, term_pred());
    lemma_term_tokens_single(first);
    match classify_sym(first) {
        TokenKind::Op(_) => {},
        TokenKind::CloseGroup => {},
        TokenKind::OpenGroup => {
            lemma_close_index_from_bounds(rest, 0, 1);
            match close_index(rest) {
                None => {},
                Some(ci) => {
                    let inner = toks.subrange(1, 1 + ci);
                    let closetok = toks[1 + ci];
                    let after = toks.subrange(2 + ci, toks.len() as int);
                    assert(rest =~= inner + seq![closetok] + after);
                    Seq::filter_distributes_over_add(inner + seq![closetok], after, term_pred());
                    Seq::filter_distributes_over_add(inner, seq![closetok], term_pred());
                    lemma_term_tokens_single(closetok);
                    lemma_parse_preserves_terms(inner);
                    match parse_model(inner) {
                        Err(_) => {},
                        Ok(g) => {
                            lemma_after_term_leaves(Expr::Group(Box::new(g)), after);
                            assert(term_tokens(toks) =~= term_tokens(inner) + term_tokens(after));
                        },
                    }
                },
            }
        },
        TokenKind::Term => {
            lemma_after_term_leaves(Expr::Leaf(first), rest);
            match after_term_model(Expr::Leaf(first), rest) {
                Ok(_) => {
                    assert(term_tokens(toks) =~= seq![first] + term_tokens(rest));
                },
                Err(_) => {},
            }
        },
    }
}

proof fn lemma_after_term_leaves(left: Expr, rest: Seq<Seq<char>>)
    ensures
        match after_term_model(left, rest) {
            Ok(e) => leaves(e) == leaves(left) + term_tokens(rest),
            Err(_) => true,
        },
    decreases rest.len(), 0int,
{
    if rest.len() == 0 {
        lemma_term_tokens_empty();
        assert(leaves(left) + Seq::<Seq<char>>::empty() =~= leaves(left));
    } else {
        match op_of_sym(rest[0]) {
            None => {},
            Some(op) => {
                let rest2 = rest.drop_first();
                assert(rest =~= seq![rest[0]] + rest2);
                Seq::filter_distributes_over_add(seq![rest[0]], rest2, term_pred());
                lemma_term_tokens_single(rest[0]);
                lemma_parse_preserves_terms(rest2);
                match parse_model(rest2) {
                    Err(_) => {},
                    Ok(into) => {
                        lemma_compose_leaves(op, left, into);
                        assert(term_tokens(rest) =~= term_tokens(rest2));
                    },
                }
            },
        }
    }
}

/// A stream of a single identifier parses to the leaf holding that
/// identifier verbatim.
pub proof fn lemma_single_identifier_is_leaf(a: Seq<char>)
    requires
        is_term_sym(a),
    ensures
        parse_model(seq![a]) == Ok::<Expr, ParseError>(Expr::Leaf(a)),
{
    reveal_with_fuel(parse_model, 2);
    reveal_with_fuel(after_term_model, 2);
    assert(seq![a].drop_first() =~= Seq::<Seq<char>>::empty());
}

/// Two identifiers joined by any operator parse to a single operation over
/// the two leaves.
pub proof fn lemma_identifier_operator_identifier(
    a: Seq<char>,
    o: Seq<char>,
    b: Seq<char>,
    op: Operator,
)
    requires
        is_term_sym(a),
        is_term_sym(b),
        op_of_sym(o) == Some(op),
    ensures
        parse_model(seq![a, o, b]) == Ok::<Expr, ParseError>(
            Expr::Operation(op, Box::new(Expr::Leaf(a)), Box::new(Expr::Leaf(b))),
        ),
{
    reveal_with_fuel(parse_model, 3);
    reveal_with_fuel(after_term_model, 3);
    assert(seq![a, o, b].drop_first() =~= seq![o, b]);
    assert(seq![o, b].drop_first() =~= seq![b]);
    assert(seq![b].drop_first() =~= Seq::<Seq<char>>::empty());
    assert(parse_model(seq![b]) == Ok::<Expr, ParseError>(Expr::Leaf(b)));
}

/// A weaker operator followed by a tighter one: the tighter operation
/// nests inside the weaker one's right operand.
pub proof fn lemma_low_then_high_precedence(
    a: Seq<char>,
    oa: Seq<char>,
    b: Seq<char>,
    om: Seq<char>,
    c: Seq<char>,
)
    requires
        is_term_sym(a),
        is_term_sym(b),
        is_term_sym(c),
        op_of_sym(oa) == Some(Operator::Add),
        op_of_sym(om) == Some(Operator::Mul),
    ensures
        parse_model(seq![a, oa, b, om, c]) == Ok::<Expr, ParseError>(
            Expr::Operation(
                Operator::Add,
                Box::new(Expr::Leaf(a)),
                Box::new(
                    Expr::Operation(Operator::Mul, Box::new(Expr::Leaf(b)), Box::new(Expr::Leaf(c))),
                ),
            ),
        ),
{
    lemma_identifier_operator_identifier(b, om, c, Operator::Mul);
    reveal_with_fuel(parse_model, 2);
    reveal_with_fuel(after_term_model, 2);
    assert(seq![a, oa, b, om, c].drop_first() =~= seq![oa, b, om, c]);
    assert(seq![oa, b, om, c].drop_first() =~= seq![b, om, c]);
}

/// A tighter operator followed by a weaker one: the parser rotates the
/// right-hand chain so the tighter operation becomes the weaker one's left
/// operand.
pub proof fn lemma_high_then_low_precedence(
    a: Seq<char>,
    om: Seq<char>,
    b: Seq<char>,
    oa: Seq<char>,
    c: Seq<char>,
)
    requires
        is_term_sym(a),
        is_term_sym(b),
        is_term_sym(c),
        op_of_sym(om) == Some(Operator::Mul),
        op_of_sym(oa) == Some(Operator::Add),
    ensures
        parse_model(seq![a, om, b, oa, c]) == Ok::<Expr, ParseError>(
            Expr::Operation(
                Operator::Add,
                Box::new(
                    Expr::Operation(Operator::Mul, Box::new(Expr::Leaf(a)), Box::new(Expr::Leaf(b))),
                ),
                Box::new(Expr::Leaf(c)),
            ),
        ),
{
    lemma_identifier_operator_identifier(b, oa, c, Operator::Add);
    reveal_with_fuel(parse_model, 2);
    reveal_with_fuel(after_term_model, 2);
    reveal_with_fuel(compose_model, 3);
    assert(seq![a, om, b, oa, c].drop_first() =~= seq![om, b, oa, c]);
    assert(seq![om, b, oa, c].drop_first() =~= seq![b, oa, c]);
}

/// Equal-precedence chains nest rightward: the later operator becomes the
/// inner node, so `a - b - c` parses as `a - (b - c)`.  Evaluators of the
/// tree must be aware of this representation convention for the
/// non-associative operators.
pub proof fn lemma_equal_precedence_nests_rightward(
    a: Seq<char>,
    o1: Seq<char>,
    b: Seq<char>,
    o2: Seq<char>,
    c: Seq<char>,
    op1: Operator,
    op2: Operator,
)
    requires
        is_term_sym(a),
        is_term_sym(b),
        is_term_sym(c),
        op_of_sym(o1) == Some(op1),
        op_of_sym(o2) == Some(op2),
        op1.spec_precedence() == op2.spec_precedence(),
    ensures
        parse_model(seq![a, o1, b, o2, c]) == Ok::<Expr, ParseError>(
            Expr::Operation(
                op1,
                Box::new(Expr::Leaf(a)),
                Box::new(Expr::Operation(op2, Box::new(Expr::Leaf(b)), Box::new(Expr::Leaf(c)))),
            ),
        ),
{
    lemma_identifier_operator_identifier(b, o2, c, op2);
    reveal_with_fuel(parse_model, 2);
    reveal_with_fuel(after_term_model, 2);
    assert(seq![a, o1, b, o2, c].drop_first() =~= seq![o1, b, o2, c]);
    assert(seq![o1, b, o2, c].drop_first() =~= seq![b, o2, c]);
}

/// A three-operator chain of strictly falling precedence ranks: each
/// tighter operation sinks to the left of the next weaker one.
pub proof fn lemma_precedence_chain(
    a: Seq<char>,
    oe: Seq<char>,
    b: Seq<char>,
    om: Seq<char>,
    c: Seq<char>,
    oa: Seq<char>,
    d: Seq<char>,
)
    requires
        is_term_sym(a),
        is_term_sym(b),
        is_term_sym(c),
        is_term_sym(d),
        op_of_sym(oe) == Some(Operator::Exp),
        op_of_sym(om) == Some(Operator::Mul),
        op_of_sym(oa) == Some(Operator::Add),
    ensures
        parse_model(seq![a, oe, b, om, c, oa, d]) == Ok::<Expr, ParseError>(
            Expr::Operation(
                Operator::Add,
                Box::new(
                    Expr::Operation(
                        Operator::Mul,
                        Box::new(
                            Expr::Operation(
                                Operator::Exp,
                                Box::new(Expr::Leaf(a)),
                                Box::new(Expr::Leaf(b)),
                            ),
                        ),
                        Box::new(Expr::Leaf(c)),
                    ),
                ),
                Box::new(Expr::Leaf(d)),
            ),
        ),
{
    lemma_identifier_operator_identifier(c, oa, d, Operator::Add);
    reveal_with_fuel(parse_model, 3);
    reveal_with_fuel(after_term_model, 3);
    reveal_with_fuel(compose_model, 4);
    assert(seq![a, oe, b, om, c, oa, d].drop_first() =~= seq![oe, b, om, c, oa, d]);
    assert(seq![oe, b, om, c, oa, d].drop_first() =~= seq![b, om, c, oa, d]);
    assert(seq![b, om, c, oa, d].drop_first() =~= seq![om, c, oa, d]);
    assert(seq![om, c, oa, d].drop_first() =~= seq![c, oa, d]);
    assert(parse_model(seq![b, om, c, oa, d]) == Ok::<Expr, ParseError>(
        Expr::Operation(
            Operator::Add,
            Box::new(
                Expr::Operation(Operator::Mul, Box::new(Expr::Leaf(b)), Box::new(Expr::Leaf(c))),
            ),
            Box::new(Expr::Leaf(d)),
        ),
    ));
}

/// Nested grouping is preserved structurally: wrapping a term in two pairs
/// of parentheses yields two nested group nodes, never collapsed.
pub proof fn lemma_nested_group_preserved(
    o1: Seq<char>,
    o2: Seq<char>,
    a: Seq<char>,
    c1: Seq<char>,
    c2: Seq<char>,
)
    requires
        is_open_sym(o1),
        is_open_sym(o2),
        is_term_sym(a),
        is_close_sym(c1),
        is_close_sym(c2),
    ensures
        parse_model(seq![o1, o2, a, c1, c2]) == Ok::<Expr, ParseError>(
            Expr::Group(Box::new(Expr::Group(Box::new(Expr::Leaf(a))))),
        ),
{
    let toks = seq![o1, o2, a, c1, c2];
    lemma_single_identifier_is_leaf(a);
    reveal_with_fuel(parse_model, 2);
    reveal_with_fuel(after_term_model, 2);
    reveal_with_fuel(close_index_from, 6);
    assert(toks.drop_first() =~= seq![o2, a, c1, c2]);
    assert(close_index_from(seq![o2, a, c1, c2], 0, 1) == Some(3int));
    assert(toks.subrange(1, 4) =~= seq![o2, a, c1]);
    assert(toks.subrange(5, 5) =~= Seq::<Seq<char>>::empty());
    assert(seq![o2, a, c1].drop_first() =~= seq![a, c1]);
    assert(close_index_from(seq![a, c1], 0, 1) == Some(1int));
    assert(seq![o2, a, c1].subrange(1, 2) =~= seq![a]);
    assert(seq![o2, a, c1].subrange(3, 3) =~= Seq::<Seq<char>>::empty());
    assert(parse_model(seq![o2, a, c1]) == Ok::<Expr, ParseError>(
        Expr::Group(Box::new(Expr::Leaf(a))),
    ));
}

/// Grouping overrides precedence locally, and the group boundary is opaque
/// to composition outside it: a parenthesized sum multiplied by a term
/// keeps the whole group as the multiplication's left operand.
pub proof fn lemma_group_opaque_to_composition(
    og: Seq<char>,
    a: Seq<char>,
    oa: Seq<char>,
    b: Seq<char>,
    cg: Seq<char>,
    om: Seq<char>,
    c: Seq<char>,
)
    requires
        is_open_sym(og),
        is_term_sym(a),
        is_term_sym(b),
        is_term_sym(c),
        is_close_sym(cg),
        op_of_sym(oa) == Some(Operator::Add),
        op_of_sym(om) == Some(Operator::Mul),
    ensures
        parse_model(seq![og, a, oa, b, cg, om, c]) == Ok::<Expr, ParseError>(
            Expr::Operation(
                Operator::Mul,
                Box::new(
                    Expr::Group(
                        Box::new(
                            Expr::Operation(
                                Operator::Add,
                                Box::new(Expr::Leaf(a)),
                                Box::new(Expr::Leaf(b)),
                            ),
                        ),
                    ),
                ),
                Box::new(Expr::Leaf(c)),
            ),
        ),
{
    let toks = seq![og, a, oa, b, cg, om, c];
    lemma_identifier_operator_identifier(a, oa, b, Operator::Add);
    lemma_single_identifier_is_leaf(c);
    reveal_with_fuel(parse_model, 2);
    reveal_with_fuel(after_term_model, 2);
    reveal_with_fuel(close_index_from, 6);
    assert(toks.drop_first() =~= seq![a, oa, b, cg, om, c]);
    assert(close_index_from(seq![a, oa, b, cg, om, c], 0, 1) == Some(3int));
    assert(toks.subrange(1, 4) =~= seq![a, oa, b]);
    assert(toks.subrange(5, 7) =~= seq![om, c]);
    assert(seq![om, c].drop_first() =~= seq![c]);
}

/// An empty stream is rejected as `EmptyStream`.
pub proof fn lemma_empty_stream_rejected()
    ensures
        parse_model(Seq::empty()) == Err::<Expr, ParseError>(ParseError::EmptyStream),
{
}

/// A stream that begins with an operator is rejected as `LeadingOperator`,
/// whatever follows.
pub proof fn lemma_leading_operator_rejected(o: Seq<char>, a: Seq<char>)
    requires
        op_of_sym(o) is Some,
    ensures
        parse_model(seq![o, a]) == Err::<Expr, ParseError>(ParseError::LeadingOperator),
{
}

/// Two adjacent identifiers are rejected as `ExpectedOperator`.
pub proof fn lemma_missing_operator_rejected(a: Seq<char>, b: Seq<char>)
    requires
        is_term_sym(a),
        is_term_sym(b),
    ensures
        parse_model(seq![a, b]) == Err::<Expr, ParseError>(ParseError::ExpectedOperator),
{
    reveal_with_fuel(parse_model, 2);
    reveal_with_fuel(after_term_model, 2);
    assert(seq![a, b].drop_first() =~= seq![b]);
}

/// An open-group symbol followed only by an identifier is rejected as
/// `UnmatchedOpen`.
pub proof fn lemma_unmatched_open_rejected(o: Seq<char>, a: Seq<char>)
    requires
        is_open_sym(o),
        is_term_sym(a),
    ensures
        parse_model(seq![o, a]) == Err::<Expr, ParseError>(ParseError::UnmatchedOpen),
{
    reveal_with_fuel(parse_model, 2);
    reveal_with_fuel(close_index_from, 3);
    assert(seq![o, a].drop_first() =~= seq![a]);
    assert(close_index_from(seq![a], 0, 1) is None);
}

/// A close-group symbol where a term is expected is rejected as
/// `UnmatchedClose`, whatever follows.
pub proof fn lemma_unmatched_close_rejected(c: Seq<char>, a: Seq<char>)
    requires
        is_close_sym(c),
    ensures
        parse_model(seq![c, a]) == Err::<Expr, ParseError>(ParseError::UnmatchedClose),
{
}

} // verus!
