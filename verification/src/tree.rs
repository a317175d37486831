//! The parse tree, its mathematical model, and the tree composer that
//! reconciles a new operator's binding strength against an already-built
//! right-hand subtree by rotating that subtree.

use vstd::prelude::*;
use std::cmp::Ordering;
use crate::ops::{Operator, cmp_prec};

verus! {

/// A parse tree node.  Each node exclusively owns its children; the tree is
/// finite and has no sharing.  A `Parenthetical` records that the source
/// text grouped its inner subtree; grouping is preserved structurally, never
/// collapsed into precedence.
#[derive(Debug, PartialEq)]
pub enum Node {
    Operation { op: Operator, left: Box<Node>, right: Box<Node> },
    Parenthetical(Box<Node>),
    Leaf(String),
}

/// The mathematical model of a parse tree: the same shape as [`Node`], with
/// each leaf's token text abstracted to its character sequence.
pub enum Expr {
    Leaf(Seq<char>),
    Operation(Operator, Box<Expr>, Box<Expr>),
    Group(Box<Expr>),
}

/// The model of a node: leaf text becomes the string's view, the shape is
/// kept as it stands.
pub open spec fn node_model(n: Node) -> Expr
    decreases n,
{
    match n {
        Node::Leaf(s) => Expr::Leaf(s@),
        Node::Operation { op, left, right } => Expr::Operation(
            op,
            Box::new(node_model(*left)),
            Box::new(node_model(*right)),
        ),
        Node::Parenthetical(inner) => Expr::Group(Box::new(node_model(*inner))),
    }
}

impl View for Node {
    type V = Expr;

    open spec fn view(&self) -> Expr {
        node_model(*self)
    }
}

/// The leaf texts of a tree, read left to right.
pub open spec fn leaves(e: Expr) -> Seq<Seq<char>>
    decreases e,
{
    match e {
        Expr::Leaf(t) => seq![t],
        Expr::Operation(_, l, r) => leaves(*l) + leaves(*r),
        Expr::Group(inner) => leaves(*inner),
    }
}

/// What composing an operator `op` with left operand `left` into an
/// already-built right-hand subtree `into` yields.  When `op` binds no
/// tighter than the root of `into`, `op` becomes the new outer root; when it
/// binds strictly tighter, it sinks into `into`'s left spine.  A leaf or a
/// group is a completed unit: nothing is rotated into it.
pub open spec fn compose_model(op: Operator, left: Expr, into: Expr) -> Expr
    decreases into,
{
    match into {
        Expr::Operation(sub_op, sub_left, sub_right) => {
            if op.spec_precedence() > sub_op.spec_precedence() {
                Expr::Operation(sub_op, Box::new(compose_model(op, left, *sub_left)), sub_right)
            } else {
                Expr::Operation(
                    op,
                    Box::new(left),
                    Box::new(Expr::Operation(sub_op, sub_left, sub_right)),
                )
            }
        },
        _ => Expr::Operation(op, Box::new(left), Box::new(into)),
    }
}

/// Builds the subtree for an operator just consumed, its already-parsed left
/// operand, and the fully parsed remainder `into` of the stream, rotating
/// `into` exactly as [`compose_model`] says.
pub fn compose_with_precedence(op: Operator, left: Node, into: Node) -> (r: Node)
    ensures
        r@ == compose_model(op, left@, into@),
    decreases into,
{
    match into {
        Node::Operation { op: sub_op, left: sub_left, right: sub_right } => {
            match op.cmp_precedence(&sub_op) {
                Ordering::Greater => {
                    let new_left = compose_with_precedence(op, left, *sub_left);
                    Node::Operation { op: sub_op, left: Box::new(new_left), right: sub_right }
                },
                _ => Node::Operation {
                    op,
                    left: Box::new(left),
                    right: Box::new(
                        Node::Operation { op: sub_op, left: sub_left, right: sub_right },
                    ),
                },
            }
        },
        _ => Node::Operation { op, left: Box::new(left), right: Box::new(into) },
    }
}

/// A boxed leaf holding the token text verbatim.
pub fn leafbox(s: &str) -> (r: Box<Node>)
    ensures
        r@ == Expr::Leaf(s@),
{
    Box::new(Node::Leaf(s.to_owned()))
}

} // verus!
