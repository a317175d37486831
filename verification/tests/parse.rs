use exparse::ops::Operator;
use exparse::parser::parse;
use exparse::tokenizer::tokenize;
use exparse::tree::{leafbox, Node};

#[test]
fn test() {
    let cases = [
        ("a", *leafbox("a")),
        (
            "a + b",
            Node::Operation {
                op: Operator::Add,
                left: leafbox("a"),
                right: leafbox("b"),
            },
        ),
        (
            "a + b - c",
            Node::Operation {
                op: Operator::Add,
                left: leafbox("a"),
                right: Box::new(Node::Operation {
                    op: Operator::Sub,
                    left: leafbox("b"),
                    right: leafbox("c"),
                }),
            },
        ),
        (
            "a + b * c",
            Node::Operation {
                op: Operator::Add,
                left: leafbox("a"),
                right: Box::new(Node::Operation {
                    op: Operator::Mul,
                    left: leafbox("b"),
                    right: leafbox("c"),
                }),
            },
        ),
        (
            "a * b + c",
            Node::Operation {
                op: Operator::Add,
                left: Box::new(Node::Operation {
                    op: Operator::Mul,
                    left: leafbox("a"),
                    right: leafbox("b"),
                }),
                right: leafbox("c"),
            },
        ),
        (
            "a + b * c + d",
            Node::Operation {
                op: Operator::Add,
                left: leafbox("a"),
                right: Box::new(Node::Operation {
                    op: Operator::Add,
                    left: Box::new(Node::Operation {
                        op: Operator::Mul,
                        left: leafbox("b"),
                        right: leafbox("c"),
                    }),
                    right: leafbox("d"),
                }),
            },
        ),
        (
            "a ^ b * c + d",
            Node::Operation {
                op: Operator::Add,
                left: Box::new(Node::Operation {
                    op: Operator::Mul,
                    left: Box::new(Node::Operation {
                        op: Operator::Exp,
                        left: leafbox("a"),
                        right: leafbox("b"),
                    }),
                    right: leafbox("c"),
                }),
                right: leafbox("d"),
            },
        ),
        (
            "a * b ^ c + d",
            Node::Operation {
                op: Operator::Add,
                left: Box::new(Node::Operation {
                    op: Operator::Mul,
                    left: leafbox("a"),
                    right: Box::new(Node::Operation {
                        op: Operator::Exp,
                        left: leafbox("b"),
                        right: leafbox("c"),
                    }),
                }),
                right: leafbox("d"),
            },
        ),
        (
            "a * b + c ^ d",
            Node::Operation {
                op: Operator::Add,
                left: Box::new(Node::Operation {
                    op: Operator::Mul,
                    left: leafbox("a"),
                    right: leafbox("b"),
                }),
                right: Box::new(Node::Operation {
                    op: Operator::Exp,
                    left: leafbox("c"),
                    right: leafbox("d"),
                }),
            },
        ),
        ("( a )", Node::Parenthetical(leafbox("a"))),
        (
            "( ( a ) )",
            Node::Parenthetical(Box::new(Node::Parenthetical(leafbox("a")))),
        ),
        (
            "( a + b )",
            Node::Parenthetical(Box::new(Node::Operation {
                op: Operator::Add,
                left: leafbox("a"),
                right: leafbox("b"),
            })),
        ),
        (
            "a * ( b + c )",
            Node::Operation {
                op: Operator::Mul,
                left: leafbox("a"),
                right: Box::new(Node::Parenthetical(Box::new(Node::Operation {
                    op: Operator::Add,
                    left: leafbox("b"),
                    right: leafbox("c"),
                }))),
            },
        ),
        (
            "( a + b ) * c",
            Node::Operation {
                op: Operator::Mul,
                left: Box::new(Node::Parenthetical(Box::new(Node::Operation {
                    op: Operator::Add,
                    left: leafbox("a"),
                    right: leafbox("b"),
                }))),
                right: leafbox("c"),
            },
        ),
        (
            "( a + b ) * c",
            Node::Operation {
                op: Operator::Mul,
                left: Box::new(Node::Parenthetical(Box::new(Node::Operation {
                    op: Operator::Add,
                    left: leafbox("a"),
                    right: leafbox("b"),
                }))),
                right: leafbox("c"),
            },
        ),
        (
            "( a + b ) ^ ( c * d )",
            Node::Operation {
                op: Operator::Exp,
                left: Box::new(Node::Parenthetical(Box::new(Node::Operation {
                    op: Operator::Add,
                    left: leafbox("a"),
                    right: leafbox("b"),
                }))),
                right: Box::new(Node::Parenthetical(Box::new(Node::Operation {
                    op: Operator::Mul,
                    left: leafbox("c"),
                    right: leafbox("d"),
                }))),
            },
        ),
    ];

    for (input, want) in cases.iter() {
        assert_eq!(parse(&tokenize(input)).unwrap(), *want);
    }
}
