//! An infix expression parser.
//!
//! A flat sequence of whitespace-separated tokens — identifiers, the binary
//! operators `+ - * / ^`, and the grouping symbols `( )` — is turned into a
//! tree that reflects conventional operator precedence and grouping.  No
//! arithmetic is evaluated: the tree records structure only.

pub mod laws;
pub mod ops;
pub mod parser;
pub mod tokenizer;
pub mod tree;

pub use ops::Operator;
pub use ops::TokenKind;
pub use ops::classify;
pub use parser::ParseError;
pub use parser::parse;
pub use parser::parse_parenthetical;
pub use tokenizer::tokenize;
pub use tree::Expr;
pub use tree::Node;
pub use tree::compose_with_precedence;
pub use tree::leafbox;
