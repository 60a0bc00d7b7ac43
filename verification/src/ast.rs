//! The parse tree of a filter expression, and its mathematical model. An
//! [`Expression`] is an ordered sequence of [`Clause`]s; a parenthesized
//! group is a [`Clause::Scope`] holding a nested expression. The model types
//! [`SpecLiteral`] and [`SpecClause`] mirror the tree with character
//! sequences in place of strings, and are what all contracts speak of.

use vstd::prelude::*;

use crate::ops::ArrayExpr;
use crate::ops::ComparisonExpr;
use crate::ops::LogicExpr;

verus! {

broadcast use vstd::seq::axiom_seq_index_decreases, vstd::std_specs::vec::axiom_vec_decreases_to_view;

/// The model of a literal: how it was written decides its kind, and a
/// numeric literal carries its value beside its text.
pub enum SpecLiteral {
    Number { text: Seq<char>, value: int },
    QuotedString { text: Seq<char> },
    BareToken { text: Seq<char> },
}

/// The model of a clause of one nesting level.
pub enum SpecClause {
    Predicate { variable: Seq<char>, operator: ComparisonExpr, value: SpecLiteral },
    Membership { variable: Seq<char>, negated: bool, values: Seq<SpecLiteral> },
    LogicToken { op: LogicExpr },
    NegateMarker,
    Scope { inner: Seq<SpecClause> },
}

/// A literal as parsed: a numeric token, a quoted string (quotes already
/// stripped), or a bare unquoted token. Only a token written as a plain
/// integer that fits a 64-bit value is tagged `Number`; `'123'` stays a
/// quoted string.
#[derive(Debug)]
pub enum Literal {
    Number { text: String, value: i64 },
    QuotedString { text: String },
    BareToken { text: String },
}

/// One clause of a nesting level: a test against the context, a combinator
/// token, a negation marker for the level, or a parenthesized sub-expression.
#[derive(Debug)]
pub enum Clause {
    Predicate { variable: String, operator: ComparisonExpr, value: Literal },
    Membership { variable: String, negated: bool, values: Vec<Literal> },
    LogicToken { op: LogicExpr },
    NegateMarker,
    Scope { inner: Expression },
}

/// The root of a parsed filter: an ordered sequence of clauses, possibly
/// empty (an empty expression evaluates to false).
#[derive(Debug)]
pub struct Expression {
    pub clauses: Vec<Clause>,
}

/// The model of a literal.
pub open spec fn lit_view(l: Literal) -> SpecLiteral {
    match l {
        Literal::Number { text, value } => SpecLiteral::Number {
            text: text@,
            value: value as int,
        },
        Literal::QuotedString { text } => SpecLiteral::QuotedString { text: text@ },
        Literal::BareToken { text } => SpecLiteral::BareToken { text: text@ },
    }
}

/// The models of a sequence of literals.
pub open spec fn lit_views(s: Seq<Literal>) -> Seq<SpecLiteral> {
    Seq::new(s.len(), |i: int| lit_view(s[i]))
}

/// The model of a clause.
pub open spec fn clause_view(c: Clause) -> SpecClause
    decreases c,
{
    match c {
        Clause::Predicate { variable, operator, value } => SpecClause::Predicate {
            variable: variable@,
            operator,
            value: lit_view(value),
        },
        Clause::Membership { variable, negated, values } => SpecClause::Membership {
            variable: variable@,
            negated,
            values: lit_views(values@),
        },
        Clause::LogicToken { op } => SpecClause::LogicToken { op },
        Clause::NegateMarker => SpecClause::NegateMarker,
        Clause::Scope { inner } => SpecClause::Scope { inner: clause_views(inner.clauses@) },
    }
}

/// The models of a sequence of clauses. The range test keeps the recursion
/// on elements of the sequence, which are smaller than the sequence itself;
/// out of range the element is never read and any model will do.
pub open spec fn clause_views(s: Seq<Clause>) -> Seq<SpecClause>
    decreases s,
{
    Seq::new(
        s.len(),
        |i: int|
            if 0 <= i < s.len() {
                clause_view(s[i])
            } else {
                SpecClause::NegateMarker
            },
    )
}

impl View for Literal {
    type V = SpecLiteral;

    open spec fn view(&self) -> SpecLiteral {
        lit_view(*self)
    }
}

impl View for Clause {
    type V = SpecClause;

    open spec fn view(&self) -> SpecClause {
        clause_view(*self)
    }
}

impl View for Expression {
    type V = Seq<SpecClause>;

    open spec fn view(&self) -> Seq<SpecClause> {
        clause_views(self.clauses@)
    }
}

impl Literal {
    /// The text form of the literal: the token as written, with quotes
    /// already stripped from a quoted string.
    pub fn text(&self) -> (r: &String)
        ensures
            r@ == spec_lit_text(self@),
    {
        match self {
            Literal::Number { text, .. } => text,
            Literal::QuotedString { text } => text,
            Literal::BareToken { text } => text,
        }
    }
}

/// The text form of a literal's model.
pub open spec fn spec_lit_text(l: SpecLiteral) -> Seq<char> {
    match l {
        SpecLiteral::Number { text, .. } => text,
        SpecLiteral::QuotedString { text } => text,
        SpecLiteral::BareToken { text } => text,
    }
}

/// A clause in which every membership list, at every nesting depth, holds
/// at least one literal. The parser only builds such clauses; the
/// evaluator does not assume it.
pub open spec fn wf_clause(c: SpecClause) -> bool
    decreases c, 0int,
{
    match c {
        SpecClause::Membership { values, .. } => values.len() >= 1,
        SpecClause::Scope { inner } => wf_clauses(inner),
        _ => true,
    }
}

/// A clause sequence of well-formed clauses.
pub open spec fn wf_clauses(cs: Seq<SpecClause>) -> bool
    decreases cs, 1int,
{
    forall|i: int| 0 <= i < cs.len() ==> wf_clause(#[trigger] cs[i])
}

/// Appending a literal appends its model.
pub proof fn lemma_lit_views_push(s: Seq<Literal>, l: Literal)
    ensures
        lit_views(s.push(l)) =~= lit_views(s).push(lit_view(l)),
{
}

/// Appending a clause appends its model.
pub proof fn lemma_clause_views_push(s: Seq<Clause>, c: Clause)
    ensures
        clause_views(s.push(c)) =~= clause_views(s).push(clause_view(c)),
{
}

/// Joining two clause sequences joins their models.
pub proof fn lemma_clause_views_add(a: Seq<Clause>, b: Seq<Clause>)
    ensures
        clause_views(a + b) =~= clause_views(a) + clause_views(b),
{
}

} // verus!
