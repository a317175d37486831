use exparse::ops::{classify, Operator, TokenKind};
use exparse::parser::{parse, parse_parenthetical, ParseError};
use exparse::tokenizer::tokenize;
use exparse::tree::{compose_with_precedence, leafbox, Node};
use std::cmp::Ordering;

#[test]
fn empty_stream_is_rejected() {
    assert_eq!(parse(&tokenize("")), Err(ParseError::EmptyStream));
}

#[test]
fn leading_operator_is_rejected() {
    assert_eq!(parse(&tokenize("+ a")), Err(ParseError::LeadingOperator));
    assert_eq!(parse(&tokenize("^ x y")), Err(ParseError::LeadingOperator));
}

#[test]
fn adjacent_terms_are_rejected() {
    assert_eq!(parse(&tokenize("a b")), Err(ParseError::ExpectedOperator));
    assert_eq!(parse(&tokenize("a b + c")), Err(ParseError::ExpectedOperator));
}

#[test]
fn unmatched_open_is_rejected() {
    assert_eq!(parse(&tokenize("( a")), Err(ParseError::UnmatchedOpen));
    assert_eq!(parse(&tokenize("( a + ( b )")), Err(ParseError::UnmatchedOpen));
}

#[test]
fn unmatched_close_is_rejected() {
    assert_eq!(parse(&tokenize(") a")), Err(ParseError::UnmatchedClose));
    assert_eq!(parse(&tokenize(")")), Err(ParseError::UnmatchedClose));
}

#[test]
fn trailing_operator_is_rejected() {
    assert_eq!(parse(&tokenize("a +")), Err(ParseError::EmptyStream));
}

#[test]
fn empty_group_is_rejected() {
    assert_eq!(parse(&tokenize("( )")), Err(ParseError::EmptyStream));
}

#[test]
fn single_identifier_is_a_leaf() {
    assert_eq!(parse(&tokenize("alpha")), Ok(Node::Leaf("alpha".to_string())));
    assert_eq!(parse(&tokenize("42")), Ok(Node::Leaf("42".to_string())));
}

#[test]
fn equal_precedence_nests_rightward() {
    assert_eq!(
        parse(&tokenize("a - b - c")),
        Ok(Node::Operation {
            op: Operator::Sub,
            left: leafbox("a"),
            right: Box::new(Node::Operation {
                op: Operator::Sub,
                left: leafbox("b"),
                right: leafbox("c"),
            }),
        })
    );
}

#[test]
fn division_binds_like_multiplication() {
    assert_eq!(
        parse(&tokenize("a / b + c")),
        Ok(Node::Operation {
            op: Operator::Add,
            left: Box::new(Node::Operation {
                op: Operator::Div,
                left: leafbox("a"),
                right: leafbox("b"),
            }),
            right: leafbox("c"),
        })
    );
}

#[test]
fn tokenize_splits_on_whitespace() {
    assert_eq!(tokenize("a + b"), vec!["a", "+", "b"]);
    assert_eq!(tokenize(""), Vec::<String>::new());
    assert_eq!(tokenize("   "), Vec::<String>::new());
    assert_eq!(tokenize("  alpha\t( beta\n)\r "), vec!["alpha", "(", "beta", ")"]);
    assert_eq!(tokenize("one"), vec!["one"]);
}

#[test]
fn tokenize_splits_on_unicode_whitespace() {
    assert_eq!(tokenize("\u{000C}"), Vec::<String>::new());
    assert_eq!(tokenize("\u{000B}\u{0085}\u{2028}"), Vec::<String>::new());
    assert_eq!(tokenize("a\u{000C}b"), vec!["a", "b"]);
    assert_eq!(tokenize("a\u{00A0}+\u{00A0}b"), vec!["a", "+", "b"]);
    assert_eq!(tokenize("x\u{1680}y\u{2003}z\u{3000}"), vec!["x", "y", "z"]);
    assert_eq!(tokenize("\u{202F}q\u{205F}"), vec!["q"]);
}

#[test]
fn parse_splits_terms_on_unicode_whitespace() {
    assert_eq!(
        parse(&tokenize("a\u{00A0}+\u{00A0}b")),
        Ok(Node::Operation {
            op: Operator::Add,
            left: leafbox("a"),
            right: leafbox("b"),
        })
    );
}

#[test]
fn classify_recognizes_each_symbol() {
    assert_eq!(classify("+"), TokenKind::Op(Operator::Add));
    assert_eq!(classify("-"), TokenKind::Op(Operator::Sub));
    assert_eq!(classify("*"), TokenKind::Op(Operator::Mul));
    assert_eq!(classify("/"), TokenKind::Op(Operator::Div));
    assert_eq!(classify("^"), TokenKind::Op(Operator::Exp));
    assert_eq!(classify("("), TokenKind::OpenGroup);
    assert_eq!(classify(")"), TokenKind::CloseGroup);
    assert_eq!(classify("a"), TokenKind::Term);
    assert_eq!(classify("++"), TokenKind::Term);
    assert_eq!(classify(""), TokenKind::Term);
}

#[test]
fn maybe_recognizes_operators_only() {
    assert_eq!(Operator::maybe("+"), Some(Operator::Add));
    assert_eq!(Operator::maybe("-"), Some(Operator::Sub));
    assert_eq!(Operator::maybe("*"), Some(Operator::Mul));
    assert_eq!(Operator::maybe("/"), Some(Operator::Div));
    assert_eq!(Operator::maybe("^"), Some(Operator::Exp));
    assert_eq!(Operator::maybe("x"), None);
    assert_eq!(Operator::maybe("("), None);
    assert_eq!(Operator::maybe(")"), None);
}

#[test]
fn precedence_ranks_are_fixed() {
    assert_eq!(Operator::Add.precedence(), 10);
    assert_eq!(Operator::Sub.precedence(), 10);
    assert_eq!(Operator::Mul.precedence(), 100);
    assert_eq!(Operator::Div.precedence(), 100);
    assert_eq!(Operator::Exp.precedence(), 1000);
}

#[test]
fn cmp_precedence_orders_by_rank() {
    assert_eq!(Operator::Add.cmp_precedence(&Operator::Sub), Ordering::Equal);
    assert_eq!(Operator::Mul.cmp_precedence(&Operator::Div), Ordering::Equal);
    assert_eq!(Operator::Add.cmp_precedence(&Operator::Mul), Ordering::Less);
    assert_eq!(Operator::Exp.cmp_precedence(&Operator::Div), Ordering::Greater);
}

#[test]
fn leafbox_holds_text_verbatim() {
    assert_eq!(*leafbox("alpha"), Node::Leaf("alpha".to_string()));
}

#[test]
fn compose_keeps_weaker_operator_outside() {
    let into = Node::Operation {
        op: Operator::Mul,
        left: leafbox("b"),
        right: leafbox("c"),
    };
    assert_eq!(
        compose_with_precedence(Operator::Add, Node::Leaf("a".to_string()), into),
        Node::Operation {
            op: Operator::Add,
            left: leafbox("a"),
            right: Box::new(Node::Operation {
                op: Operator::Mul,
                left: leafbox("b"),
                right: leafbox("c"),
            }),
        }
    );
}

#[test]
fn compose_rotates_tighter_operator_inward() {
    let into = Node::Operation {
        op: Operator::Add,
        left: leafbox("b"),
        right: leafbox("c"),
    };
    assert_eq!(
        compose_with_precedence(Operator::Mul, Node::Leaf("a".to_string()), into),
        Node::Operation {
            op: Operator::Add,
            left: Box::new(Node::Operation {
                op: Operator::Mul,
                left: leafbox("a"),
                right: leafbox("b"),
            }),
            right: leafbox("c"),
        }
    );
}

#[test]
fn compose_treats_group_as_completed_unit() {
    let into = Node::Parenthetical(Box::new(Node::Operation {
        op: Operator::Add,
        left: leafbox("b"),
        right: leafbox("c"),
    }));
    assert_eq!(
        compose_with_precedence(Operator::Mul, Node::Leaf("a".to_string()), into),
        Node::Operation {
            op: Operator::Mul,
            left: leafbox("a"),
            right: Box::new(Node::Parenthetical(Box::new(Node::Operation {
                op: Operator::Add,
                left: leafbox("b"),
                right: leafbox("c"),
            }))),
        }
    );
}

#[test]
fn parse_parenthetical_splits_at_matching_close() {
    let toks = tokenize("a ) * b");
    let (node, after) = parse_parenthetical(&toks).unwrap();
    assert_eq!(node, Node::Parenthetical(leafbox("a")));
    assert_eq!(after, &["*".to_string(), "b".to_string()][..]);
}

#[test]
fn parse_parenthetical_tracks_nesting_depth() {
    let toks = tokenize("( a ) ) rest");
    let (node, after) = parse_parenthetical(&toks).unwrap();
    assert_eq!(
        node,
        Node::Parenthetical(Box::new(Node::Parenthetical(leafbox("a"))))
    );
    assert_eq!(after, &["rest".to_string()][..]);
}

#[test]
fn parse_parenthetical_reports_missing_close() {
    let toks = tokenize("a + b");
    assert_eq!(parse_parenthetical(&toks), Err(ParseError::UnmatchedOpen));
}
