//! Behavioral tests: the documented properties of the evaluator on
//! concrete inputs — absent variables, fold order, negation, quoting,
//! the numeric/string distinction, keyword case, and the hardened
//! handling of values that do not read as integers.

use bool_expr_parser::BoolExprParser;
use bool_expr_parser::Clause;
use bool_expr_parser::Expression;
use bool_expr_parser::VariableContext;
use bool_expr_parser::eval;

fn context_of(pairs: &[(&str, &str)]) -> VariableContext {
    let mut map = VariableContext::new();
    for (name, value) in pairs {
        map.insert(name, value);
    }
    map
}

fn eval_str(expression: &str, pairs: &[(&str, &str)]) -> bool {
    let ast = BoolExprParser::parse(expression).expect("Parse error");
    eval(&ast, &context_of(pairs))
}

#[test]
fn test_same_tree_same_context_same_answer() {
    let ast = BoolExprParser::parse("a=1 or b in (x, y)").expect("Parse error");
    let map = context_of(&[("a", "1"), ("b", "z")]);
    let first = eval(&ast, &map);
    let second = eval(&ast, &map);
    assert_eq!(first, second);
    assert_eq!(first, true);
}

#[test]
fn test_absent_variable_asymmetry() {
    let pairs: &[(&str, &str)] = &[("other", "1")];
    assert_eq!(eval_str("x=1", pairs), false);
    assert_eq!(eval_str("x!=1", pairs), false);
    assert_eq!(eval_str("x in (1,2)", pairs), false);
    assert_eq!(eval_str("x not in (1,2)", pairs), true);
    assert_eq!(eval_str("x>1", pairs), false);
    assert_eq!(eval_str("x<=1", pairs), false);
}

#[test]
fn test_fold_semantics() {
    assert_eq!(eval_str("a=1 or a=2", &[("a", "2")]), true);
    assert_eq!(eval_str("a=1 and a=2", &[("a", "1")]), false);
    assert_eq!(eval_str("a=1", &[("a", "1")]), true);
    assert_eq!(eval_str("a=1", &[("a", "2")]), false);
}

#[test]
fn test_fold_is_left_to_right() {
    // (((false or true) and false) or true): no precedence, only order.
    assert_eq!(
        eval_str("a=x or a=1 and a=x or a=1", &[("a", "1")]),
        true
    );
    // ((true and false) or false): the AND binds to the accumulator.
    assert_eq!(eval_str("a=1 and a=x or a=x", &[("a", "1")]), false);
}

#[test]
fn test_negation_applies_to_whole_level() {
    let pairs: &[(&str, &str)] = &[("countryCode", "NL"), ("b", "z")];
    assert_eq!(eval_str("countryCode=NL and !(a=z or b=g)", pairs), true);
    assert_eq!(eval_str("countryCode=NL and (a=z or b=g)", pairs), false);
    // The marker may stand anywhere in the level: still the whole level.
    assert_eq!(eval_str("!(a=b) or c=d", &[]), true);
    assert_eq!(eval_str("!(a=b) or c=d", &[("c", "d")]), false);
}

#[test]
fn test_grouping_overrides_fold_order() {
    assert_eq!(
        eval_str("(a=b or b=a) AND (z=d or b=d)", &[("b", "a"), ("z", "d")]),
        true
    );
    // Parentheses force the OR before the AND; without them the fold
    // runs strictly left to right.
    let pairs: &[(&str, &str)] = &[("c", "3")];
    assert_eq!(eval_str("a=1 and (b=2 or c=3)", pairs), false);
    assert_eq!(eval_str("a=1 and b=2 or c=3", pairs), true);
}

#[test]
fn test_keywords_case_insensitive() {
    let pairs: &[(&str, &str)] = &[("a", "1"), ("b", "2")];
    assert_eq!(eval_str("a=1 and b=2", pairs), true);
    assert_eq!(eval_str("a=1 AND b=2", pairs), true);
    assert_eq!(eval_str("a=1 AnD b=2", pairs), true);
    assert_eq!(eval_str("a=9 or b=2", pairs), true);
    assert_eq!(eval_str("a=9 OR b=2", pairs), true);
    assert_eq!(eval_str("a=9 Or b=2", pairs), true);
    assert_eq!(eval_str("a in (1,3)", pairs), true);
    assert_eq!(eval_str("a IN (1,3)", pairs), true);
    assert_eq!(eval_str("a In (1,3)", pairs), true);
    assert_eq!(eval_str("a not in (2,3)", pairs), true);
    assert_eq!(eval_str("a NOT IN (2,3)", pairs), true);
    assert_eq!(eval_str("a NoT iN (2,3)", pairs), true);
}

#[test]
fn test_quoting_round_trip() {
    assert_eq!(eval_str("x='c d'", &[("x", "c d")]), true);
    assert_eq!(eval_str("x=\"c d\"", &[("x", "c d")]), true);
    assert_eq!(eval_str("x='c d'", &[("x", "c")]), false);
    // The other kind of quote is plain content inside a quoted string.
    assert_eq!(eval_str("x=\"it's\"", &[("x", "it's")]), true);
}

#[test]
fn test_numeric_vs_string_literal() {
    assert_eq!(eval_str("a>'demo'", &[("a", "10")]), false);
    assert_eq!(eval_str("a>=10", &[("a", "10")]), true);
    // A quoted number is a string: equality by text still works.
    assert_eq!(eval_str("a='123'", &[("a", "123")]), true);
    assert_eq!(eval_str("a>'123'", &[("a", "124")]), false);
    assert_eq!(eval_str("a>123", &[("a", "124")]), true);
}

#[test]
fn test_number_literal_text_is_compared_verbatim() {
    // Equality is text equality, even for numeric literals.
    assert_eq!(eval_str("a=01", &[("a", "1")]), false);
    assert_eq!(eval_str("a=01", &[("a", "01")]), true);
    // Ordering goes by the numeric value.
    assert_eq!(eval_str("a>=01", &[("a", "1")]), true);
}

#[test]
fn test_negative_numbers() {
    assert_eq!(eval_str("a>-5", &[("a", "0")]), true);
    assert_eq!(eval_str("a<-5", &[("a", "-10")]), true);
    assert_eq!(eval_str("a=-5", &[("a", "-5")]), true);
    assert_eq!(
        eval_str(
            "a>=-9223372036854775808",
            &[("a", "-9223372036854775808")]
        ),
        true
    );
    assert_eq!(
        eval_str("a<=9223372036854775807", &[("a", "9223372036854775807")]),
        true
    );
}

#[test]
fn test_context_value_not_numeric_degrades_to_false() {
    // The context value does not read as an integer: the ordering
    // predicate contributes false instead of failing.
    assert_eq!(eval_str("a>5", &[("a", "abc")]), false);
    assert_eq!(eval_str("a<5", &[("a", "abc")]), false);
    assert_eq!(eval_str("a>5 or b=1", &[("a", "abc"), ("b", "1")]), true);
    // A value with an explicit sign reads as an integer.
    assert_eq!(eval_str("a>=10", &[("a", "+10")]), true);
}

#[test]
fn test_literal_too_large_for_ordering_stays_text() {
    // A token beyond the 64-bit range is not a numeric literal: ordering
    // contributes false, text equality still holds.
    assert_eq!(
        eval_str("a>99999999999999999999", &[("a", "5")]),
        false
    );
    assert_eq!(
        eval_str(
            "a=99999999999999999999",
            &[("a", "99999999999999999999")]
        ),
        true
    );
}

#[test]
fn test_membership_by_exact_text() {
    assert_eq!(eval_str("uid in (1,2,3)", &[("uid", "2")]), true);
    assert_eq!(eval_str("uid in (1,2,3)", &[("uid", "4")]), false);
    assert_eq!(eval_str("uid in (1,2,3)", &[("uid", "02")]), false);
    assert_eq!(eval_str("uid not in (1,2,3)", &[("uid", "4")]), true);
    assert_eq!(eval_str("x in ('c d', e)", &[("x", "c d")]), true);
}

#[test]
fn test_not_in_with_wider_spacing() {
    assert_eq!(eval_str("a not  in (b)", &[("a", "c")]), true);
    assert_eq!(eval_str("a not in (b)", &[("a", "b")]), false);
}

#[test]
fn test_insignificant_whitespace() {
    assert_eq!(
        eval_str("  a \t=\n 1  ", &[("a", "1")]),
        true
    );
    assert_eq!(eval_str("a in ( 1 , 2 )", &[("a", "2")]), true);
}

#[test]
fn test_last_insert_wins() {
    let mut map = VariableContext::new();
    map.insert("a", "1");
    map.insert("a", "2");
    let ast = BoolExprParser::parse("a=2").expect("Parse error");
    assert_eq!(eval(&ast, &map), true);
    let ast = BoolExprParser::parse("a=1").expect("Parse error");
    assert_eq!(eval(&ast, &map), false);
}

#[test]
fn test_lookup_is_case_sensitive() {
    assert_eq!(eval_str("A=1", &[("a", "1")]), false);
    assert_eq!(eval_str("a=B", &[("a", "b")]), false);
}

#[test]
fn test_empty_expression_evaluates_false() {
    let empty = Expression { clauses: Vec::new() };
    let map = context_of(&[("a", "1")]);
    assert_eq!(eval(&empty, &map), false);
}

#[test]
fn test_empty_membership_list_in_tree() {
    // The evaluator does not assume a membership list is non-empty.
    let clause = Clause::Membership {
        variable: String::from("a"),
        negated: false,
        values: Vec::new(),
    };
    let expr = Expression { clauses: vec![clause] };
    let map = context_of(&[("a", "1")]);
    assert_eq!(eval(&expr, &map), false);

    let clause = Clause::Membership {
        variable: String::from("a"),
        negated: true,
        values: Vec::new(),
    };
    let expr = Expression { clauses: vec![clause] };
    assert_eq!(eval(&expr, &map), true);
}

#[test]
fn test_nested_scopes() {
    assert_eq!(
        eval_str("a=1 and (b=2 or (c=3 and d=4))", &[("a", "1"), ("c", "3"), ("d", "4")]),
        true
    );
    assert_eq!(
        eval_str("!(!(a=1))", &[("a", "1")]),
        true
    );
    assert_eq!(
        eval_str("!(!(a=1))", &[("a", "2")]),
        false
    );
}
