//! The executable parser: turns expression text into an [`Expression`]
//! tree, or fails with a [`SyntaxError`] carrying the position that could
//! not be parsed and what was expected there. Every function returns
//! exactly what the grammar's specification functions say for its input,
//! so the accepted language is the one `spec_parse` defines.

use vstd::prelude::*;

use crate::ast::Clause;
use crate::ast::Expression;
use crate::ast::Literal;
use crate::ast::SpecClause;
use crate::ast::SpecLiteral;
use crate::ast::clause_view;
use crate::ast::clause_views;
use crate::ast::lemma_clause_views_add;
use crate::ast::lemma_clause_views_push;
use crate::ast::lemma_lit_views_push;
use crate::ast::lit_view;
use crate::ast::lit_views;
use crate::grammar::Expected;
use crate::grammar::PStep;
use crate::grammar::PairOp;
use crate::grammar::lemma_word_end_bounds;
use crate::grammar::spec_find_close;
use crate::grammar::spec_parse;
use crate::grammar::spec_parse_level;
use crate::grammar::spec_parse_list;
use crate::grammar::spec_parse_list_rest;
use crate::grammar::spec_parse_more;
use crate::grammar::spec_parse_op;
use crate::grammar::spec_parse_term;
use crate::grammar::spec_parse_value;
use crate::grammar::spec_skip_space;
use crate::grammar::spec_word_end;
use crate::ops::ArrayExpr;
use crate::ops::ComparisonExpr;
use crate::ops::is_not_keyword;
use crate::ops::LogicExpr;
use crate::text::is_space;
use crate::text::is_word;
use crate::text::parse_i64;

verus! {

/// A parse failure: the position (in characters) that could not be
/// parsed, and what the grammar expected there.
#[derive(Clone, Copy, Debug, PartialEq, Eq, Structural)]
pub struct SyntaxError {
    pub pos: usize,
    pub expected: Expected,
}

/// The parser of the filter expression language.
pub struct BoolExprParser;

/// The first position at or after `i` that does not hold whitespace.
fn skip_space(s: &str, i: usize) -> (j: usize)
    requires
        i <= s@.len(),
    ensures
        j as int == spec_skip_space(s@, i as int),
        i <= j <= s@.len(),
{
    let n = s.unicode_len();
    let mut k = i;
    while k < n && is_space(s.get_char(k))
        invariant
            i <= k <= n,
            n == s@.len(),
            spec_skip_space(s@, i as int) == spec_skip_space(s@, k as int),
        decreases n - k,
    {
        k = k + 1;
    }
    k
}

/// The end of the word starting at `i`: the first position at or after
/// `i` that does not hold a word character.
fn word_end(s: &str, i: usize) -> (j: usize)
    requires
        i <= s@.len(),
    ensures
        j as int == spec_word_end(s@, i as int),
        i <= j <= s@.len(),
{
    let n = s.unicode_len();
    let mut k = i;
    while k < n && is_word(s.get_char(k))
        invariant
            i <= k <= n,
            n == s@.len(),
            spec_word_end(s@, i as int) == spec_word_end(s@, k as int),
        decreases n - k,
    {
        k = k + 1;
    }
    k
}

/// The first position at or after `i` holding the quote character `q`.
fn find_close(s: &str, i: usize, q: char) -> (r: Option<usize>)
    requires
        i <= s@.len(),
    ensures
        match r {
            Some(j) => spec_find_close(s@, i as int, q) == Some(j as int) && i <= j < s@.len(),
            None => spec_find_close(s@, i as int, q) is None,
        },
{
    let n = s.unicode_len();
    let mut k = i;
    while k < n
        invariant
            i <= k <= n,
            n == s@.len(),
            spec_find_close(s@, i as int, q) == spec_find_close(s@, k as int, q),
        decreases n - k,
    {
        if s.get_char(k) == q {
            return Some(k);
        }
        k = k + 1;
    }
    None
}

/// Parses one literal value at `i`: a quoted string delimited by matching
/// single or double quotes (quotes stripped), or a word, tagged as a
/// number when it reads as a 64-bit integer.
fn parse_value(s: &str, i: usize) -> (r: Result<(Literal, usize), SyntaxError>)
    requires
        i <= s@.len(),
    ensures
        match r {
            Ok((lit, next)) => spec_parse_value(s@, i as int) == (PStep::POk {
                val: lit_view(lit),
                next: next as int,
            }) && i < next <= s@.len(),
            Err(e) => spec_parse_value(s@, i as int) == (PStep::<SpecLiteral>::PFail {
                pos: e.pos as int,
                expected: e.expected,
            }),
        },
{
    let n = s.unicode_len();
    if i == n {
        return Err(SyntaxError { pos: i, expected: Expected::Value });
    }
    let c = s.get_char(i);
    if c == '\'' || c == '"' {
        match find_close(s, i + 1, c) {
            Some(j) => {
                let text = s.substring_char(i + 1, j).to_owned();
                Ok((Literal::QuotedString { text }, j + 1))
            },
            None => Err(SyntaxError { pos: n, expected: Expected::ClosingQuote }),
        }
    } else {
        let j = word_end(s, i);
        if j == i {
            Err(SyntaxError { pos: i, expected: Expected::Value })
        } else {
            let w = s.substring_char(i, j);
            match parse_i64(w) {
                Some(v) => Ok((Literal::Number { text: w.to_owned(), value: v }, j)),
                None => Ok((Literal::BareToken { text: w.to_owned() }, j)),
            }
        }
    }
}

/// Parses a membership list at `i`: a parenthesized, comma-separated,
/// non-empty sequence of literal values.
fn parse_list(s: &str, i: usize) -> (r: Result<(Vec<Literal>, usize), SyntaxError>)
    requires
        i <= s@.len(),
    ensures
        match r {
            Ok((vals, next)) => spec_parse_list(s@, i as int) == (PStep::POk {
                val: lit_views(vals@),
                next: next as int,
            }) && i < next <= s@.len(),
            Err(e) => spec_parse_list(s@, i as int) == (PStep::<Seq<SpecLiteral>>::PFail {
                pos: e.pos as int,
                expected: e.expected,
            }),
        },
{
    let n = s.unicode_len();
    if i == n || s.get_char(i) != '(' {
        return Err(SyntaxError { pos: i, expected: Expected::ListOpen });
    }
    let k0 = skip_space(s, i + 1);
    match parse_value(s, k0) {
        Err(e) => Err(e),
        Ok((first, start)) => {
            let mut vals: Vec<Literal> = Vec::new();
            let mut cur = start;
            proof {
                lemma_lit_views_push(Seq::<Literal>::empty(), first);
                assert(lit_views(Seq::<Literal>::empty()) =~= Seq::<SpecLiteral>::empty());
            }
            vals.push(first);
            proof {
                assert(lit_views(vals@) =~= seq![lit_view(first)]);
            }
            loop
                invariant
                    i < cur <= n,
                    n == s@.len(),
                    spec_parse_list(s@, i as int) == spec_parse_list_rest(
                        s@,
                        cur as int,
                        lit_views(vals@),
                    ),
                decreases n - cur,
            {
                let j = skip_space(s, cur);
                if j == n {
                    return Err(SyntaxError { pos: n, expected: Expected::ListDelimiter });
                }
                let c = s.get_char(j);
                if c == ')' {
                    return Ok((vals, j + 1));
                } else if c == ',' {
                    let k = skip_space(s, j + 1);
                    match parse_value(s, k) {
                        Err(e) => {
                            return Err(e);
                        },
                        Ok((lit, nx)) => {
                            proof {
                                lemma_lit_views_push(vals@, lit);
                            }
                            vals.push(lit);
                            cur = nx;
                        },
                    }
                } else {
                    return Err(SyntaxError { pos: j, expected: Expected::ListDelimiter });
                }
            }
        },
    }
}

/// Parses the operator of a pair at `i`: comparison punctuation, the
/// keyword `in`, or the keywords `not in` separated by whitespace.
fn parse_op(s: &str, i: usize) -> (r: Result<(PairOp, usize), SyntaxError>)
    requires
        i <= s@.len(),
    ensures
        match r {
            Ok((op, next)) => spec_parse_op(s@, i as int) == (PStep::POk {
                val: op,
                next: next as int,
            }) && i < next <= s@.len(),
            Err(e) => spec_parse_op(s@, i as int) == (PStep::<PairOp>::PFail {
                pos: e.pos as int,
                expected: e.expected,
            }),
        },
{
    let n = s.unicode_len();
    if i == n {
        return Err(SyntaxError { pos: i, expected: Expected::Operator });
    }
    let c = s.get_char(i);
    if c == '=' {
        if i + 1 < n && s.get_char(i + 1) == '=' {
            Ok((PairOp::Compare(ComparisonExpr::Eq), i + 2))
        } else {
            Ok((PairOp::Compare(ComparisonExpr::Eq), i + 1))
        }
    } else if c == '!' {
        if i + 1 < n && s.get_char(i + 1) == '=' {
            Ok((PairOp::Compare(ComparisonExpr::NotEq), i + 2))
        } else {
            Err(SyntaxError { pos: i, expected: Expected::Operator })
        }
    } else if c == '>' {
        if i + 1 < n && s.get_char(i + 1) == '=' {
            Ok((PairOp::Compare(ComparisonExpr::MoreEq), i + 2))
        } else {
            Ok((PairOp::Compare(ComparisonExpr::More), i + 1))
        }
    } else if c == '<' {
        if i + 1 < n && s.get_char(i + 1) == '=' {
            Ok((PairOp::Compare(ComparisonExpr::LessEq), i + 2))
        } else {
            Ok((PairOp::Compare(ComparisonExpr::Less), i + 1))
        }
    } else if is_word(c) {
        let j = word_end(s, i);
        proof {
            lemma_word_end_bounds(s@, i as int);
        }
        let w = s.substring_char(i, j);
        match ArrayExpr::from_str(w) {
            Some(ae) => Ok((PairOp::Member(ae), j)),
            None => {
                if is_not_keyword(w) {
                    let k = skip_space(s, j);
                    let j2 = word_end(s, k);
                    let w2 = s.substring_char(k, j2);
                    match ArrayExpr::from_str(w2) {
                        Some(ArrayExpr::In) => Ok((PairOp::Member(ArrayExpr::NotIn), j2)),
                        _ => Err(SyntaxError { pos: k, expected: Expected::MembershipKeyword }),
                    }
                } else {
                    Err(SyntaxError { pos: i, expected: Expected::Operator })
                }
            },
        }
    } else {
        Err(SyntaxError { pos: i, expected: Expected::Operator })
    }
}

/// Parses one term at `i`: a predicate or membership pair, a
/// parenthesized scope, or `!` before a scope.
fn parse_term(s: &str, i: usize) -> (r: Result<(Vec<Clause>, usize), SyntaxError>)
    requires
        i <= s@.len(),
    ensures
        match r {
            Ok((cls, next)) => spec_parse_term(s@, i as int) == (PStep::POk {
                val: clause_views(cls@),
                next: next as int,
            }) && i < next <= s@.len(),
            Err(e) => spec_parse_term(s@, i as int) == (PStep::<Seq<SpecClause>>::PFail {
                pos: e.pos as int,
                expected: e.expected,
            }),
        },
    decreases s@.len() - i, 0int,
{
    let n = s.unicode_len();
    if i == n {
        return Err(SyntaxError { pos: i, expected: Expected::Clause });
    }
    let c = s.get_char(i);
    if c == '!' {
        let j = skip_space(s, i + 1);
        if j < n && s.get_char(j) == '(' {
            match parse_level(s, j + 1) {
                Err(e) => Err(e),
                Ok((inner_clauses, next)) => {
                    if next < n && s.get_char(next) == ')' {
                        let mut cls: Vec<Clause> = Vec::new();
                        cls.push(Clause::NegateMarker);
                        cls.push(
                            Clause::Scope { inner: Expression { clauses: inner_clauses } },
                        );
                        proof {
                            assert(clause_views(cls@) =~= seq![
                                clause_view(cls@[0]),
                                clause_view(cls@[1]),
                            ]);
                        }
                        Ok((cls, next + 1))
                    } else {
                        Err(SyntaxError { pos: next, expected: Expected::ScopeClose })
                    }
                },
            }
        } else {
            Err(SyntaxError { pos: j, expected: Expected::ScopeOpen })
        }
    } else if c == '(' {
        match parse_level(s, i + 1) {
            Err(e) => Err(e),
            Ok((inner_clauses, next)) => {
                if next < n && s.get_char(next) == ')' {
                    let mut cls: Vec<Clause> = Vec::new();
                    cls.push(Clause::Scope { inner: Expression { clauses: inner_clauses } });
                    proof {
                        assert(clause_views(cls@) =~= seq![clause_view(cls@[0])]);
                    }
                    Ok((cls, next + 1))
                } else {
                    Err(SyntaxError { pos: next, expected: Expected::ScopeClose })
                }
            },
        }
    } else if is_word(c) {
        let j = word_end(s, i);
        proof {
            lemma_word_end_bounds(s@, i as int);
        }
        let variable = s.substring_char(i, j).to_owned();
        let k = skip_space(s, j);
        match parse_op(s, k) {
            Err(e) => Err(e),
            Ok((PairOp::Compare(op), next)) => {
                let k2 = skip_space(s, next);
                match parse_value(s, k2) {
                    Err(e) => Err(e),
                    Ok((lit, after)) => {
                        let mut cls: Vec<Clause> = Vec::new();
                        cls.push(Clause::Predicate { variable, operator: op, value: lit });
                        proof {
                            assert(clause_views(cls@) =~= seq![clause_view(cls@[0])]);
                        }
                        Ok((cls, after))
                    },
                }
            },
            Ok((PairOp::Member(ae), next)) => {
                let k2 = skip_space(s, next);
                match parse_list(s, k2) {
                    Err(e) => Err(e),
                    Ok((vals, after)) => {
                        let negated = match ae {
                            ArrayExpr::NotIn => true,
                            ArrayExpr::In => false,
                        };
                        let mut cls: Vec<Clause> = Vec::new();
                        cls.push(Clause::Membership { variable, negated, values: vals });
                        proof {
                            assert(clause_views(cls@) =~= seq![clause_view(cls@[0])]);
                        }
                        Ok((cls, after))
                    },
                }
            },
        }
    } else {
        Err(SyntaxError { pos: i, expected: Expected::Clause })
    }
}

/// Parses one nesting level at `i`: a term, then any number of
/// `logic-keyword term` steps, stopping before a closing parenthesis or
/// at the end of the input.
fn parse_level(s: &str, i: usize) -> (r: Result<(Vec<Clause>, usize), SyntaxError>)
    requires
        i <= s@.len(),
    ensures
        match r {
            Ok((cls, next)) => spec_parse_level(s@, i as int) == (PStep::POk {
                val: clause_views(cls@),
                next: next as int,
            }) && i < next <= s@.len(),
            Err(e) => spec_parse_level(s@, i as int) == (PStep::<Seq<SpecClause>>::PFail {
                pos: e.pos as int,
                expected: e.expected,
            }),
        },
    decreases s@.len() - i, 1int,
{
    let n = s.unicode_len();
    let j = skip_space(s, i);
    match parse_term(s, j) {
        Err(e) => Err(e),
        Ok((first, start)) => {
            let mut cls = first;
            let mut cur = start;
            loop
                invariant
                    i < cur <= n,
                    n == s@.len(),
                    spec_parse_level(s@, i as int) == spec_parse_more(
                        s@,
                        cur as int,
                        clause_views(cls@),
                    ),
                decreases n - cur,
            {
                let j2 = skip_space(s, cur);
                if j2 == n {
                    return Ok((cls, j2));
                }
                let c = s.get_char(j2);
                if c == ')' {
                    return Ok((cls, j2));
                }
                if is_word(c) {
                    let w_end = word_end(s, j2);
                    proof {
                        lemma_word_end_bounds(s@, j2 as int);
                    }
                    let w = s.substring_char(j2, w_end);
                    match LogicExpr::from_str(w) {
                        Some(op) => {
                            let k = skip_space(s, w_end);
                            match parse_term(s, k) {
                                Err(e) => {
                                    return Err(e);
                                },
                                Ok((tcls, next2)) => {
                                    let ghost before = cls@;
                                    let ghost term_clauses = tcls@;
                                    let mut rest = tcls;
                                    cls.push(Clause::LogicToken { op });
                                    cls.append(&mut rest);
                                    proof {
                                        lemma_clause_views_push(
                                            before,
                                            Clause::LogicToken { op },
                                        );
                                        lemma_clause_views_add(
                                            before.push(Clause::LogicToken { op }),
                                            term_clauses,
                                        );
                                        assert(clause_views(before).push(
                                            clause_view(Clause::LogicToken { op }),
                                        ) =~= clause_views(before) + seq![
                                            SpecClause::LogicToken { op },
                                        ]);
                                    }
                                    cur = next2;
                                },
                            }
                        },
                        None => {
                            return Err(
                                SyntaxError { pos: j2, expected: Expected::LogicKeyword },
                            );
                        },
                    }
                } else {
                    return Err(SyntaxError { pos: j2, expected: Expected::LogicKeyword });
                }
            }
        },
    }
}

impl BoolExprParser {
    /// Parses expression text into a tree, or fails with a syntax error
    /// at the position that could not be parsed: the whole input is
    /// accepted or rejected, never a partial tree.
    pub fn parse(text: &str) -> (r: Result<Expression, SyntaxError>)
        ensures
            match r {
                Ok(e) => spec_parse(text@) == (PStep::POk {
                    val: e@,
                    next: text@.len() as int,
                }),
                Err(err) => spec_parse(text@) == (PStep::<Seq<SpecClause>>::PFail {
                    pos: err.pos as int,
                    expected: err.expected,
                }),
            },
    {
        match parse_level(text, 0) {
            Err(e) => Err(e),
            Ok((cls, next)) => {
                if next == text.unicode_len() {
                    Ok(Expression { clauses: cls })
                } else {
                    Err(SyntaxError { pos: next, expected: Expected::End })
                }
            },
        }
    }
}

} // verus!
