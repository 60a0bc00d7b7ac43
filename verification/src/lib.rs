//! A small language of boolean filter expressions, evaluated against a flat
//! string key/value context: expressions such as
//! `countryCode = NL and uid in (1,2,3) and !(role='guest')` are parsed into a
//! clause tree and folded against the context into a single boolean.
//!
//! The two entry points are [`BoolExprParser::parse`], which turns expression
//! text into an [`Expression`] or a [`SyntaxError`], and [`eval`], which folds
//! a parsed tree against a [`VariableContext`]. The grammar accepted by the
//! parser is defined by the specification functions in [`grammar`], and the
//! meaning of a parsed tree by those in [`semantics`]; both entry points carry
//! contracts proved against those definitions.

pub mod ast;
pub mod context;
pub mod grammar;
pub mod ops;
pub mod parser;
pub mod semantics;
pub mod text;

pub use ast::Clause;
pub use ast::Expression;
pub use ast::Literal;
pub use ops::ArrayExpr;
pub use ops::Comparison;
pub use ops::ComparisonExpr;
pub use ops::Logic;
pub use ops::LogicExpr;
pub use context::VariableContext;
pub use grammar::Expected;
pub use parser::BoolExprParser;
pub use parser::SyntaxError;
pub use semantics::comparison_helper;
pub use semantics::eval;
pub use semantics::logic_check;
pub use semantics::logic_op;
pub use text::parse_i64;
