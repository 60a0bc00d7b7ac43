//! The test suite of the expression evaluator as exercised through the
//! program's own module: parse an expression, evaluate it against a
//! context, and check the boolean.

use bool_expr_parser::BoolExprParser;
use bool_expr_parser::VariableContext;
use bool_expr_parser::eval;

fn context_of(pairs: &[(&str, &str)]) -> VariableContext {
    let mut map = VariableContext::new();
    for (name, value) in pairs {
        map.insert(name, value);
    }
    map
}

#[test]
fn main_test_negate_test() {
    let map = context_of(&[("countryCode", "NL"), ("b", "z")]);

    let ast = BoolExprParser::parse("countryCode = NL and !(a=z or b=g)")
        .expect("Failed to parse");
    assert_eq!(eval(&ast, &map), true);

    let ast = BoolExprParser::parse("countryCode = NL and (a=z or b=g)")
        .expect("Failed to parse");
    assert_eq!(eval(&ast, &map), false);
}

#[test]
fn main_test_scopes() {
    let map = context_of(&[("b", "a"), ("z", "d")]);
    assert_eq!(
        eval(
            &BoolExprParser::parse("(a=b or b=a) AND (z=d or b=d)").expect("Parse error"),
            &map
        ),
        true
    );
}

#[test]
fn main_test_simple_pair_test() {
    let map = context_of(&[("countryCode", "DE"), ("b", "z")]);
    assert_eq!(
        eval(
            &BoolExprParser::parse("countryCode=DE").expect("Parse error"),
            &map
        ),
        true
    );
}

#[test]
fn main_test_variable_with_underscore() {
    let map = context_of(&[("country_code", "IL"), ("b", "z")]);
    assert_eq!(
        eval(
            &BoolExprParser::parse("country_code =   IL").expect("Parse error"),
            &map
        ),
        true
    );
}

#[test]
fn main_test_logic_and() {
    let map = context_of(&[("a", "b"), ("c", "d")]);
    assert_eq!(
        eval(
            &BoolExprParser::parse("a=b and c=d").expect("Parse error"),
            &map
        ),
        true
    );
}

#[test]
fn main_test_logic_or() {
    let map = context_of(&[("a", "XXX"), ("c", "d")]);
    assert_eq!(
        eval(
            &BoolExprParser::parse("a=b or c=d").expect("Parse error"),
            &map
        ),
        true
    );
}

#[test]
fn main_test_not_equal_pair() {
    let map = context_of(&[("a", "b"), ("c", "d")]);
    assert_eq!(
        eval(&BoolExprParser::parse("a!=c").expect("Parse error"), &map),
        true
    );
    assert_eq!(
        eval(&BoolExprParser::parse("a==b").expect("Parse error"), &map),
        true
    );
}

#[test]
fn main_test_hash_map_does_not_contain() {
    let map = context_of(&[("a", "b"), ("c", "d")]);
    assert_eq!(
        eval(
            &BoolExprParser::parse("a=b AND xxx=ddd").expect("Parse error"),
            &map
        ),
        false
    );
    assert_eq!(
        eval(
            &BoolExprParser::parse("a=b or xxx=ddd").expect("Parse error"),
            &map
        ),
        true
    );
}

#[test]
fn main_test_simple_array() {
    let map = context_of(&[("a", "d"), ("b", "c")]);
    let ast = BoolExprParser::parse("b=c or a in (a,b,c,d)").expect("Parse error");
    assert_eq!(eval(&ast, &map), true);
}
