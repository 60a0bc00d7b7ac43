//! The operator vocabulary of the expression language: comparison symbols,
//! membership keywords and logic keywords, each with the specification of
//! which token text names it. Keywords are matched case-insensitively;
//! comparison symbols are punctuation and are matched literally.

use vstd::prelude::*;

use crate::text::lower_char;
use crate::text::lower_seq;
use crate::text::to_lower;

verus! {

/// A comparison operator of a predicate clause.
#[derive(Clone, Copy, Debug, PartialEq, Eq, Structural)]
pub enum ComparisonExpr {
    Eq,
    More,
    Less,
    MoreEq,
    LessEq,
    NotEq,
}

/// A membership operator of a membership clause.
#[derive(Clone, Copy, Debug, PartialEq, Eq, Structural)]
pub enum ArrayExpr {
    In,
    NotIn,
}

/// A logic combinator written between clauses.
#[derive(Clone, Copy, Debug, PartialEq, Eq, Structural)]
pub enum LogicExpr {
    And,
    Or,
}

/// Every pair operator in one vocabulary: the comparison operators together
/// with the membership operators.
#[derive(Clone, Copy, Debug, PartialEq, Eq, Structural)]
pub enum Comparison {
    Eq,
    More,
    Less,
    MoreEq,
    LessEq,
    NotEq,
    In,
    NotIn,
}

/// A logic combinator, under the name the evaluator helpers use.
#[derive(Clone, Copy, Debug, PartialEq, Eq, Structural)]
pub enum Logic {
    And,
    Or,
}

/// The comparison operator a punctuation token names: `=` and `==` mean
/// equality, `!=` inequality, and `>`, `>=`, `<`, `<=` the orderings.
pub open spec fn spec_comparison_symbol(s: Seq<char>) -> Option<ComparisonExpr> {
    if s.len() == 1 {
        if s[0] == '=' {
            Some(ComparisonExpr::Eq)
        } else if s[0] == '>' {
            Some(ComparisonExpr::More)
        } else if s[0] == '<' {
            Some(ComparisonExpr::Less)
        } else {
            None
        }
    } else if s.len() == 2 && s[1] == '=' {
        if s[0] == '=' {
            Some(ComparisonExpr::Eq)
        } else if s[0] == '!' {
            Some(ComparisonExpr::NotEq)
        } else if s[0] == '>' {
            Some(ComparisonExpr::MoreEq)
        } else if s[0] == '<' {
            Some(ComparisonExpr::LessEq)
        } else {
            None
        }
    } else {
        None
    }
}

/// The membership operator a token names, matched case-insensitively:
/// `in`, or `not in` with a single space.
pub open spec fn spec_membership_keyword(s: Seq<char>) -> Option<ArrayExpr> {
    if s.len() == 2 && lower_char(s[0]) == 'i' && lower_char(s[1]) == 'n' {
        Some(ArrayExpr::In)
    } else if s.len() == 6 && lower_char(s[0]) == 'n' && lower_char(s[1]) == 'o' && lower_char(
        s[2],
    ) == 't' && s[3] == ' ' && lower_char(s[4]) == 'i' && lower_char(s[5]) == 'n' {
        Some(ArrayExpr::NotIn)
    } else {
        None
    }
}

/// Whether a word is the keyword `not`, matched case-insensitively: the
/// first word of the two-word membership operator `not in`.
pub open spec fn spec_not_keyword(s: Seq<char>) -> bool {
    s.len() == 3 && lower_char(s[0]) == 'n' && lower_char(s[1]) == 'o' && lower_char(s[2]) == 't'
}

/// The logic combinator a word names, matched case-insensitively:
/// `and` or `or`.
pub open spec fn spec_logic_keyword(s: Seq<char>) -> Option<LogicExpr> {
    if s.len() == 3 && lower_char(s[0]) == 'a' && lower_char(s[1]) == 'n' && lower_char(s[2])
        == 'd' {
        Some(LogicExpr::And)
    } else if s.len() == 2 && lower_char(s[0]) == 'o' && lower_char(s[1]) == 'r' {
        Some(LogicExpr::Or)
    } else {
        None
    }
}

/// The pair operator a token names: a comparison symbol or a membership
/// keyword.
pub open spec fn spec_comparison_from(s: Seq<char>) -> Option<Comparison> {
    match spec_comparison_symbol(s) {
        Some(op) => Some(
            match op {
                ComparisonExpr::Eq => Comparison::Eq,
                ComparisonExpr::More => Comparison::More,
                ComparisonExpr::Less => Comparison::Less,
                ComparisonExpr::MoreEq => Comparison::MoreEq,
                ComparisonExpr::LessEq => Comparison::LessEq,
                ComparisonExpr::NotEq => Comparison::NotEq,
            },
        ),
        None => match spec_membership_keyword(s) {
            Some(ArrayExpr::In) => Some(Comparison::In),
            Some(ArrayExpr::NotIn) => Some(Comparison::NotIn),
            None => None,
        },
    }
}

impl ComparisonExpr {
    /// The comparison operator named by the given token text, if any.
    pub fn from_str(expr: &str) -> (r: Option<ComparisonExpr>)
        ensures
            r == spec_comparison_symbol(expr@),
    {
        let n = expr.unicode_len();
        if n == 1 {
            let c = expr.get_char(0);
            if c == '=' {
                Some(ComparisonExpr::Eq)
            } else if c == '>' {
                Some(ComparisonExpr::More)
            } else if c == '<' {
                Some(ComparisonExpr::Less)
            } else {
                None
            }
        } else if n == 2 {
            let c0 = expr.get_char(0);
            let c1 = expr.get_char(1);
            if c1 != '=' {
                None
            } else if c0 == '=' {
                Some(ComparisonExpr::Eq)
            } else if c0 == '!' {
                Some(ComparisonExpr::NotEq)
            } else if c0 == '>' {
                Some(ComparisonExpr::MoreEq)
            } else if c0 == '<' {
                Some(ComparisonExpr::LessEq)
            } else {
                None
            }
        } else {
            None
        }
    }
}

impl ArrayExpr {
    /// The membership operator named by the given token text, if any.
    pub fn from_str(expr: &str) -> (r: Option<ArrayExpr>)
        ensures
            r == spec_membership_keyword(expr@),
    {
        let n = expr.unicode_len();
        if n == 2 {
            if to_lower(expr.get_char(0)) == 'i' && to_lower(expr.get_char(1)) == 'n' {
                Some(ArrayExpr::In)
            } else {
                None
            }
        } else if n == 6 {
            if to_lower(expr.get_char(0)) == 'n' && to_lower(expr.get_char(1)) == 'o' && to_lower(
                expr.get_char(2),
            ) == 't' && expr.get_char(3) == ' ' && to_lower(expr.get_char(4)) == 'i' && to_lower(
                expr.get_char(5),
            ) == 'n' {
                Some(ArrayExpr::NotIn)
            } else {
                None
            }
        } else {
            None
        }
    }
}

impl LogicExpr {
    /// The logic combinator named by the given word, if any.
    pub fn from_str(expr: &str) -> (r: Option<LogicExpr>)
        ensures
            r == spec_logic_keyword(expr@),
    {
        let n = expr.unicode_len();
        if n == 3 {
            if to_lower(expr.get_char(0)) == 'a' && to_lower(expr.get_char(1)) == 'n' && to_lower(
                expr.get_char(2),
            ) == 'd' {
                Some(LogicExpr::And)
            } else {
                None
            }
        } else if n == 2 {
            if to_lower(expr.get_char(0)) == 'o' && to_lower(expr.get_char(1)) == 'r' {
                Some(LogicExpr::Or)
            } else {
                None
            }
        } else {
            None
        }
    }
}

impl Comparison {
    /// The pair operator named by the given token text, if any.
    pub fn from_str(s: &str) -> (r: Option<Comparison>)
        ensures
            r == spec_comparison_from(s@),
    {
        match ComparisonExpr::from_str(s) {
            Some(op) => Some(
                match op {
                    ComparisonExpr::Eq => Comparison::Eq,
                    ComparisonExpr::More => Comparison::More,
                    ComparisonExpr::Less => Comparison::Less,
                    ComparisonExpr::MoreEq => Comparison::MoreEq,
                    ComparisonExpr::LessEq => Comparison::LessEq,
                    ComparisonExpr::NotEq => Comparison::NotEq,
                },
            ),
            None => match ArrayExpr::from_str(s) {
                Some(ArrayExpr::In) => Some(Comparison::In),
                Some(ArrayExpr::NotIn) => Some(Comparison::NotIn),
                None => None,
            },
        }
    }
}

impl Logic {
    /// The logic combinator named by the given word, if any.
    pub fn from_str(logic: &str) -> (r: Option<Logic>)
        ensures
            r == (match spec_logic_keyword(logic@) {
                Some(LogicExpr::And) => Some(Logic::And),
                Some(LogicExpr::Or) => Some(Logic::Or),
                None => None,
            }),
    {
        match LogicExpr::from_str(logic) {
            Some(LogicExpr::And) => Some(Logic::And),
            Some(LogicExpr::Or) => Some(Logic::Or),
            None => None,
        }
    }
}

/// Whether a word is the keyword `not`, matched case-insensitively.
pub fn is_not_keyword(s: &str) -> (r: bool)
    ensures
        r == spec_not_keyword(s@),
{
    let n = s.unicode_len();
    if n == 3 {
        to_lower(s.get_char(0)) == 'n' && to_lower(s.get_char(1)) == 'o' && to_lower(s.get_char(2))
            == 't'
    } else {
        false
    }
}

/// Lower-casing is idempotent, so a keyword check that lower-cases each
/// character cannot tell a word from its lower-cased form.
proof fn lemma_lower_char_idempotent(c: char)
    ensures
        lower_char(lower_char(c)) == lower_char(c),
{
}

/// The logic keywords `and` and `or` are matched case-insensitively: a word
/// names the same combinator as its lower-cased form.
pub proof fn lemma_logic_keyword_case_insensitive(s: Seq<char>)
    ensures
        spec_logic_keyword(lower_seq(s)) == spec_logic_keyword(s),
{
    assert forall|i: int| 0 <= i < s.len() implies lower_char(#[trigger] lower_seq(s)[i])
        == lower_char(s[i]) by {
        lemma_lower_char_idempotent(s[i]);
    }
}

/// The membership keywords `in` and `not in` are matched case-insensitively:
/// a token names the same operator as its lower-cased form.
pub proof fn lemma_membership_keyword_case_insensitive(s: Seq<char>)
    ensures
        spec_membership_keyword(lower_seq(s)) == spec_membership_keyword(s),
{
    assert forall|i: int| 0 <= i < s.len() implies lower_char(#[trigger] lower_seq(s)[i])
        == lower_char(s[i]) by {
        lemma_lower_char_idempotent(s[i]);
    }
    if s.len() == 6 {
        assert(lower_char(' ') == ' ');
        assert((lower_seq(s)[3] == ' ') == (s[3] == ' ')) by {
            if 'A' <= s[3] && s[3] <= 'Z' {
                assert(lower_seq(s)[3] != ' ');
            }
        }
    }
}

} // verus!
