//! The meaning of a parsed expression, and the evaluator proved against it.
//!
//! Every nesting level is folded left to right: the accumulator starts as
//! `false` under the `OR` combinator, a logic token changes the combinator
//! for the next fold, and a negate marker anywhere in the level inverts the
//! level's final result. A predicate or membership clause contributes a
//! boolean computed from the context; a parenthesized scope contributes the
//! recursive evaluation of its inner expression.

use vstd::prelude::*;

use crate::ast::Clause;
use crate::ast::Expression;
use crate::ast::Literal;
use crate::ast::SpecClause;
use crate::ast::SpecLiteral;
use crate::ast::clause_view;
use crate::ast::lit_view;
use crate::ast::lit_views;
use crate::ast::spec_lit_text;
use crate::context::VariableContext;
use crate::ops::ComparisonExpr;
use crate::ops::Logic;
use crate::ops::LogicExpr;
use crate::text::parse_i64;
use crate::text::spec_parse_i64;
use crate::text::str_eq;

verus! {

broadcast use vstd::seq::axiom_seq_index_decreases;

/// One fold step: `OR` joins with disjunction, `AND` with conjunction.
pub open spec fn spec_fold(op: LogicExpr, a: bool, b: bool) -> bool {
    match op {
        LogicExpr::Or => a || b,
        LogicExpr::And => a && b,
    }
}

/// The combinator a `Logic` value names.
pub open spec fn logic_view(l: Logic) -> LogicExpr {
    match l {
        Logic::And => LogicExpr::And,
        Logic::Or => LogicExpr::Or,
    }
}

/// What an ordering comparison contributes: only a literal written as a
/// number is ordered, and only against a context value that itself reads
/// as a 64-bit integer; in every other case the comparison contributes
/// false.
pub open spec fn spec_ordering_holds(
    context_value: Seq<char>,
    lit: SpecLiteral,
    op: ComparisonExpr,
) -> bool {
    match lit {
        SpecLiteral::Number { value, .. } => match spec_parse_i64(context_value) {
            Some(cv) => match op {
                ComparisonExpr::More => cv > value,
                ComparisonExpr::MoreEq => cv >= value,
                ComparisonExpr::Less => cv < value,
                ComparisonExpr::LessEq => cv <= value,
                ComparisonExpr::Eq => false,
                ComparisonExpr::NotEq => false,
            },
            None => false,
        },
        _ => false,
    }
}

/// What a predicate clause contributes: false when the variable is absent;
/// text equality or inequality for `=` and `!=`; an ordering comparison
/// for the other operators.
pub open spec fn spec_predicate_holds(
    variable: Seq<char>,
    op: ComparisonExpr,
    lit: SpecLiteral,
    m: Map<Seq<char>, Seq<char>>,
) -> bool {
    if !m.contains_key(variable) {
        false
    } else {
        match op {
            ComparisonExpr::Eq => spec_lit_text(lit) == m[variable],
            ComparisonExpr::NotEq => spec_lit_text(lit) != m[variable],
            _ => spec_ordering_holds(m[variable], lit, op),
        }
    }
}

/// Whether some literal of the list has the given text form.
pub open spec fn spec_member_of(values: Seq<SpecLiteral>, v: Seq<char>) -> bool {
    exists|i: int| 0 <= i < values.len() && spec_lit_text(#[trigger] values[i]) == v
}

/// What a membership clause contributes: with the variable absent, false
/// for `in` and true for `not in`; otherwise membership of the context
/// value in the literal list, negated for `not in`.
pub open spec fn spec_membership_holds(
    variable: Seq<char>,
    negated: bool,
    values: Seq<SpecLiteral>,
    m: Map<Seq<char>, Seq<char>>,
) -> bool {
    if !m.contains_key(variable) {
        negated
    } else if negated {
        !spec_member_of(values, m[variable])
    } else {
        spec_member_of(values, m[variable])
    }
}

/// Whether a level carries a negate marker anywhere in its clause sequence.
pub open spec fn spec_level_has_negate(cs: Seq<SpecClause>) -> bool {
    exists|j: int| 0 <= j < cs.len() && #[trigger] cs[j] is NegateMarker
}

/// The fold of a level's clauses from position `i` on, starting from the
/// accumulator `acc` under the combinator `comb`, negation left aside.
pub open spec fn spec_level_value(
    cs: Seq<SpecClause>,
    m: Map<Seq<char>, Seq<char>>,
    i: int,
    acc: bool,
    comb: LogicExpr,
) -> bool
    decreases cs, cs.len() - i,
{
    if !(0 <= i < cs.len()) {
        acc
    } else {
        match cs[i] {
            SpecClause::LogicToken { op } => spec_level_value(cs, m, i + 1, acc, op),
            SpecClause::NegateMarker => spec_level_value(cs, m, i + 1, acc, comb),
            _ => spec_level_value(
                cs,
                m,
                i + 1,
                spec_fold(comb, acc, spec_clause_result(cs[i], m)),
                comb,
            ),
        }
    }
}

/// The boolean a predicate, membership or scope clause contributes to its
/// level's fold. A logic token or negate marker contributes no value and
/// is never folded.
pub open spec fn spec_clause_result(c: SpecClause, m: Map<Seq<char>, Seq<char>>) -> bool
    decreases c, 0int,
{
    match c {
        SpecClause::Predicate { variable, operator, value } => spec_predicate_holds(
            variable,
            operator,
            value,
            m,
        ),
        SpecClause::Membership { variable, negated, values } => spec_membership_holds(
            variable,
            negated,
            values,
            m,
        ),
        SpecClause::Scope { inner } => spec_eval_expr(inner, m),
        SpecClause::LogicToken { .. } => false,
        SpecClause::NegateMarker => false,
    }
}

/// The value of one nesting level: the left-to-right fold of its clauses
/// from a false accumulator under `OR`, inverted when the level carries a
/// negate marker.
pub open spec fn spec_eval_expr(cs: Seq<SpecClause>, m: Map<Seq<char>, Seq<char>>) -> bool
    decreases cs, cs.len() + 1,
{
    if spec_level_has_negate(cs) {
        !spec_level_value(cs, m, 0, false, LogicExpr::Or)
    } else {
        spec_level_value(cs, m, 0, false, LogicExpr::Or)
    }
}

/// One logic operation of the fold.
pub fn logic_op(op: &LogicExpr, value_a: bool, value_b: bool) -> (r: bool)
    ensures
        r == spec_fold(*op, value_a, value_b),
{
    match op {
        LogicExpr::Or => value_a || value_b,
        LogicExpr::And => value_a && value_b,
    }
}

/// One logic operation of the fold, on the `Logic` vocabulary.
pub fn logic_check(logic_or: &Logic, output: bool, val: bool) -> (r: bool)
    ensures
        r == spec_fold(logic_view(*logic_or), output, val),
{
    match logic_or {
        Logic::Or => output || val,
        Logic::And => output && val,
    }
}

/// Folds the result of an ordering comparison (`>`, `>=`, `<`, `<=`) of a
/// context value against a literal into the accumulator `bool_left`.
pub fn comparison_helper(
    op: &LogicExpr,
    bool_left: bool,
    value_a: &str,
    value_b: &Literal,
    comparison_expr: ComparisonExpr,
) -> (r: bool)
    ensures
        r == spec_fold(*op, bool_left, spec_ordering_holds(value_a@, value_b@, comparison_expr)),
{
    let bool_right: bool = match value_b {
        Literal::Number { value, .. } => match parse_i64(value_a) {
            Some(cv) => match comparison_expr {
                ComparisonExpr::More => cv > *value,
                ComparisonExpr::MoreEq => cv >= *value,
                ComparisonExpr::Less => cv < *value,
                ComparisonExpr::LessEq => cv <= *value,
                ComparisonExpr::Eq => false,
                ComparisonExpr::NotEq => false,
            },
            None => false,
        },
        _ => false,
    };
    logic_op(op, bool_left, bool_right)
}

/// Whether the context value appears among the list's literals, compared
/// by exact text.
fn list_contains(values: &Vec<Literal>, v: &String) -> (r: bool)
    ensures
        r == spec_member_of(lit_views(values@), v@),
{
    let n = values.len();
    let mut i: usize = 0;
    while i < n
        invariant
            0 <= i <= n,
            n == values@.len(),
            forall|j: int| 0 <= j < i ==> spec_lit_text(#[trigger] lit_views(values@)[j]) != v@,
        decreases n - i,
    {
        proof {
            assert(lit_views(values@)[i as int] == lit_view(values@[i as int]));
        }
        if str_eq(values[i].text().as_str(), v.as_str()) {
            return true;
        }
        i = i + 1;
    }
    false
}

/// Evaluates a parsed expression against a variable context, as the
/// specification `spec_eval_expr` says: a left-to-right fold with a false
/// initial accumulator under `OR`, negated when the level carries a negate
/// marker. Evaluation is total: it never fails, whatever the context holds.
pub fn eval(expr: &Expression, context: &VariableContext) -> (result: bool)
    ensures
        result == spec_eval_expr(expr@, context@),
    decreases *expr,
{
    let ghost cs = expr@;
    let ghost m = context@;
    let n = expr.clauses.len();
    let mut output = false;
    let mut logic_expr = LogicExpr::Or;
    let mut negate = false;
    let mut idx: usize = 0;
    while idx < n
        invariant
            0 <= idx <= n,
            n == expr.clauses.len(),
            cs == expr@,
            m == context@,
            cs.len() == n,
            spec_level_value(cs, m, 0, false, LogicExpr::Or) == spec_level_value(
                cs,
                m,
                idx as int,
                output,
                logic_expr,
            ),
            negate == exists|j: int| 0 <= j < idx && #[trigger] cs[j] is NegateMarker,
        decreases n - idx,
    {
        let clause = &expr.clauses[idx];
        let ghost pre_output = output;
        let ghost pre_comb = logic_expr;
        proof {
            assert(cs[idx as int] == clause_view(expr.clauses@[idx as int]));
        }
        match clause {
            Clause::LogicToken { op } => {
                logic_expr = *op;
            },
            Clause::NegateMarker => {
                negate = true;
                proof {
                    assert(cs[idx as int] is NegateMarker);
                }
            },
            Clause::Predicate { variable, operator, value } => {
                match context.get(variable.as_str()) {
                    None => {
                        output = logic_op(&logic_expr, output, false);
                    },
                    Some(ctx_value) => {
                        match operator {
                            ComparisonExpr::Eq => {
                                let b = str_eq(value.text().as_str(), ctx_value.as_str());
                                output = logic_op(&logic_expr, output, b);
                            },
                            ComparisonExpr::NotEq => {
                                let b = !str_eq(value.text().as_str(), ctx_value.as_str());
                                output = logic_op(&logic_expr, output, b);
                            },
                            _ => {
                                output = comparison_helper(
                                    &logic_expr,
                                    output,
                                    ctx_value.as_str(),
                                    value,
                                    *operator,
                                );
                            },
                        }
                    },
                }
                proof {
                    assert(output == spec_fold(
                        pre_comb,
                        pre_output,
                        spec_clause_result(cs[idx as int], m),
                    ));
                }
            },
            Clause::Membership { variable, negated, values } => {
                match context.get(variable.as_str()) {
                    None => {
                        output = logic_op(&logic_expr, output, *negated);
                    },
                    Some(ctx_value) => {
                        let contains = list_contains(values, ctx_value);
                        let b = if *negated {
                            !contains
                        } else {
                            contains
                        };
                        output = logic_op(&logic_expr, output, b);
                    },
                }
                proof {
                    assert(output == spec_fold(
                        pre_comb,
                        pre_output,
                        spec_clause_result(cs[idx as int], m),
                    ));
                }
            },
            Clause::Scope { inner } => {
                let sub = eval(inner, context);
                output = logic_op(&logic_expr, output, sub);
                proof {
                    assert(output == spec_fold(
                        pre_comb,
                        pre_output,
                        spec_clause_result(cs[idx as int], m),
                    ));
                }
            },
        }
        proof {
            assert(spec_level_value(cs, m, idx as int, pre_output, pre_comb) == spec_level_value(
                cs,
                m,
                idx as int + 1,
                output,
                logic_expr,
            ));
        }
        idx = idx + 1;
    }
    if negate {
        !output
    } else {
        output
    }
}

/// Evaluation is a pure function of the parsed tree and the context:
/// evaluating the same expression against the same context twice yields
/// the same boolean.
pub proof fn lemma_eval_idempotent(
    cs: Seq<SpecClause>,
    m: Map<Seq<char>, Seq<char>>,
    r1: bool,
    r2: bool,
)
    requires
        r1 == spec_eval_expr(cs, m),
        r2 == spec_eval_expr(cs, m),
    ensures
        r1 == r2,
{
}

/// For a variable absent from the context, a predicate contributes false
/// whatever its operator and literal, while a membership test contributes
/// false for `in` and true for `not in`.
pub proof fn lemma_absent_variable_asymmetry(
    variable: Seq<char>,
    op: ComparisonExpr,
    lit: SpecLiteral,
    negated: bool,
    values: Seq<SpecLiteral>,
    m: Map<Seq<char>, Seq<char>>,
)
    requires
        !m.contains_key(variable),
    ensures
        !spec_predicate_holds(variable, op, lit, m),
        spec_membership_holds(variable, negated, values, m) == negated,
{
}

/// The accumulator of a level starts as false under the `OR` combinator,
/// so the first predicate, membership or scope clause seeds the
/// accumulator with exactly its own result.
pub proof fn lemma_first_clause_seeds(cs: Seq<SpecClause>, m: Map<Seq<char>, Seq<char>>)
    requires
        cs.len() > 0,
        !(cs[0] is LogicToken),
        !(cs[0] is NegateMarker),
    ensures
        spec_level_value(cs, m, 0, false, LogicExpr::Or) == spec_level_value(
            cs,
            m,
            1,
            spec_clause_result(cs[0], m),
            LogicExpr::Or,
        ),
{
}

/// An ordering comparison applies only to a literal written as a number:
/// with a quoted string or bare token literal the predicate contributes
/// false, whatever the context holds.
pub proof fn lemma_ordering_requires_numeric_literal(
    variable: Seq<char>,
    op: ComparisonExpr,
    lit: SpecLiteral,
    m: Map<Seq<char>, Seq<char>>,
)
    requires
        op is More || op is MoreEq || op is Less || op is LessEq,
        !(lit is Number),
    ensures
        !spec_predicate_holds(variable, op, lit, m),
{
}

/// A negate marker negates the folded value of its whole nesting level.
pub proof fn lemma_negate_applies_to_level(cs: Seq<SpecClause>, m: Map<Seq<char>, Seq<char>>)
    requires
        spec_level_has_negate(cs),
    ensures
        spec_eval_expr(cs, m) == !spec_level_value(cs, m, 0, false, LogicExpr::Or),
{
}

/// A negate marker never contributes to the fold itself: the fold of a
/// level with a marker inserted anywhere equals the fold without it.
proof fn lemma_insert_marker_keeps_value(
    cs: Seq<SpecClause>,
    m: Map<Seq<char>, Seq<char>>,
    p: int,
    j: int,
    acc: bool,
    comb: LogicExpr,
)
    requires
        0 <= p <= cs.len(),
        0 <= j <= cs.len() + 1,
    ensures
        j <= p ==> spec_level_value(cs.insert(p, SpecClause::NegateMarker), m, j, acc, comb)
            == spec_level_value(cs, m, j, acc, comb),
        j > p ==> spec_level_value(cs.insert(p, SpecClause::NegateMarker), m, j, acc, comb)
            == spec_level_value(cs, m, j - 1, acc, comb),
    decreases cs.len() + 1 - j,
{
    let cs2 = cs.insert(p, SpecClause::NegateMarker);
    assert(cs2.len() == cs.len() + 1);
    if j <= cs.len() {
        if j < p {
            assert(cs2[j] == cs[j]);
        } else if j == p {
            assert(cs2[j] is NegateMarker);
        } else {
            assert(cs2[j] == cs[j - 1]);
        }
        match cs2[j] {
            SpecClause::LogicToken { op } => {
                lemma_insert_marker_keeps_value(cs, m, p, j + 1, acc, op);
            },
            SpecClause::NegateMarker => {
                lemma_insert_marker_keeps_value(cs, m, p, j + 1, acc, comb);
            },
            _ => {
                lemma_insert_marker_keeps_value(
                    cs,
                    m,
                    p,
                    j + 1,
                    spec_fold(comb, acc, spec_clause_result(cs2[j], m)),
                    comb,
                );
            },
        }
    }
}

/// Inserting a negate marker at any position of a level that has none
/// inverts the level's result: where the marker stands does not matter,
/// only that the level carries one.
pub proof fn lemma_negate_marker_position_irrelevant(
    cs: Seq<SpecClause>,
    m: Map<Seq<char>, Seq<char>>,
    p: int,
)
    requires
        0 <= p <= cs.len(),
        !spec_level_has_negate(cs),
    ensures
        spec_eval_expr(cs.insert(p, SpecClause::NegateMarker), m) == !spec_eval_expr(cs, m),
{
    let cs2 = cs.insert(p, SpecClause::NegateMarker);
    assert(cs2[p] is NegateMarker);
    assert(spec_level_has_negate(cs2));
    lemma_insert_marker_keeps_value(cs, m, p, 0, false, LogicExpr::Or);
}

} // verus!
