//! The grammar of filter expressions, written as a deterministic
//! recursive-descent parse over a character sequence. These specification
//! functions are the definition of the language: the executable parser is
//! proved to return exactly what they say, token for token.
//!
//! A level is a term followed by any number of `logic-keyword term` steps,
//! and stops before a closing parenthesis or at the end of the input. A
//! term is a pair (`variable operator value` or `variable membership
//! list`), a parenthesized scope, or `!` followed by a scope, which adds a
//! negate marker beside the scope clause. Whitespace is insignificant
//! between tokens, and keywords are matched case-insensitively.
//!
//! The range tests written before each recursive step hold on every path
//! the parser can reach — each sub-parse moves forward through the input —
//! and make each recursion plainly bounded by the characters left.

use vstd::prelude::*;

use crate::ast::SpecClause;
use crate::ast::SpecLiteral;
use crate::ast::wf_clause;
use crate::ast::wf_clauses;
use crate::ops::ArrayExpr;
use crate::ops::ComparisonExpr;
use crate::ops::spec_logic_keyword;
use crate::ops::spec_membership_keyword;
use crate::ops::spec_not_keyword;
use crate::text::is_space_char;
use crate::text::is_word_char;
use crate::text::spec_parse_i64;

verus! {

/// What the parser expected at the position where it stopped.
#[derive(Clone, Copy, Debug, PartialEq, Eq, Structural)]
pub enum Expected {
    /// A clause: a variable name, a parenthesized group, or `!`.
    Clause,
    /// A comparison or membership operator after a variable.
    Operator,
    /// A literal value: a word or a quoted string.
    Value,
    /// The closing quote of a quoted string.
    ClosingQuote,
    /// The opening parenthesis of a membership list.
    ListOpen,
    /// A comma or the closing parenthesis inside a membership list.
    ListDelimiter,
    /// The keyword `and` or `or` between clauses.
    LogicKeyword,
    /// The keyword `in` after `not`.
    MembershipKeyword,
    /// The parenthesized group that `!` negates.
    ScopeOpen,
    /// The closing parenthesis of a group.
    ScopeClose,
    /// The end of the input.
    End,
}

/// The outcome of one specification-level parse step: a value and the
/// position after it, or the position that cannot be parsed and what was
/// expected there.
pub enum PStep<T> {
    POk { val: T, next: int },
    PFail { pos: int, expected: Expected },
}

/// A pair operator: a comparison, or a membership test.
#[derive(Clone, Copy, Debug, PartialEq, Eq, Structural)]
pub enum PairOp {
    Compare(ComparisonExpr),
    Member(ArrayExpr),
}

/// The first position at or after `i` that does not hold whitespace.
pub open spec fn spec_skip_space(s: Seq<char>, i: int) -> int
    decreases s.len() - i,
{
    if 0 <= i < s.len() && is_space_char(s[i]) {
        spec_skip_space(s, i + 1)
    } else {
        i
    }
}

/// The first position at or after `i` that does not hold a word character:
/// the end of the word starting at `i`.
pub open spec fn spec_word_end(s: Seq<char>, i: int) -> int
    decreases s.len() - i,
{
    if 0 <= i < s.len() && is_word_char(s[i]) {
        spec_word_end(s, i + 1)
    } else {
        i
    }
}

/// The first position at or after `i` holding the quote character `q`.
pub open spec fn spec_find_close(s: Seq<char>, i: int, q: char) -> Option<int>
    decreases s.len() - i,
{
    if !(0 <= i < s.len()) {
        None
    } else if s[i] == q {
        Some(i)
    } else {
        spec_find_close(s, i + 1, q)
    }
}

/// The literal an unquoted token denotes: a number when the whole token
/// reads as a 64-bit integer, a bare token otherwise.
pub open spec fn spec_literal_of(text: Seq<char>) -> SpecLiteral {
    match spec_parse_i64(text) {
        Some(v) => SpecLiteral::Number { text, value: v },
        None => SpecLiteral::BareToken { text },
    }
}

/// Parses one literal value at `i`: a quoted string delimited by matching
/// single or double quotes (quotes stripped, no escaping), or a word.
pub open spec fn spec_parse_value(s: Seq<char>, i: int) -> PStep<SpecLiteral> {
    if !(0 <= i < s.len()) {
        PStep::PFail { pos: i, expected: Expected::Value }
    } else if s[i] == '\'' || s[i] == '"' {
        match spec_find_close(s, i + 1, s[i]) {
            Some(j) => PStep::POk {
                val: SpecLiteral::QuotedString { text: s.subrange(i + 1, j) },
                next: j + 1,
            },
            None => PStep::PFail { pos: s.len() as int, expected: Expected::ClosingQuote },
        }
    } else {
        let j = spec_word_end(s, i);
        if j == i {
            PStep::PFail { pos: i, expected: Expected::Value }
        } else {
            PStep::POk { val: spec_literal_of(s.subrange(i, j)), next: j }
        }
    }
}

/// Parses the rest of a membership list after a value: a comma and a
/// further value, or the closing parenthesis.
pub open spec fn spec_parse_list_rest(s: Seq<char>, i: int, acc: Seq<SpecLiteral>) -> PStep<
    Seq<SpecLiteral>,
>
    decreases s.len() - i,
{
    let j = spec_skip_space(s, i);
    if !(i <= j < s.len()) {
        PStep::PFail { pos: s.len() as int, expected: Expected::ListDelimiter }
    } else if s[j] == ')' {
        PStep::POk { val: acc, next: j + 1 }
    } else if s[j] == ',' {
        match spec_parse_value(s, spec_skip_space(s, j + 1)) {
            PStep::POk { val, next } => if i < next <= s.len() {
                spec_parse_list_rest(s, next, acc.push(val))
            } else {
                PStep::PFail { pos: j, expected: Expected::ListDelimiter }
            },
            PStep::PFail { pos, expected } => PStep::PFail { pos, expected },
        }
    } else {
        PStep::PFail { pos: j, expected: Expected::ListDelimiter }
    }
}

/// Parses a membership list at `i`: a parenthesized, comma-separated,
/// non-empty sequence of literal values.
pub open spec fn spec_parse_list(s: Seq<char>, i: int) -> PStep<Seq<SpecLiteral>> {
    if !(0 <= i < s.len() && s[i] == '(') {
        PStep::PFail { pos: i, expected: Expected::ListOpen }
    } else {
        match spec_parse_value(s, spec_skip_space(s, i + 1)) {
            PStep::POk { val, next } => if i < next <= s.len() {
                spec_parse_list_rest(s, next, seq![val])
            } else {
                PStep::PFail { pos: i, expected: Expected::ListOpen }
            },
            PStep::PFail { pos, expected } => PStep::PFail { pos, expected },
        }
    }
}

/// Parses the operator of a pair at `i`: comparison punctuation (`=`,
/// `==`, `!=`, `>`, `>=`, `<`, `<=`), the keyword `in`, or the keywords
/// `not in` separated by whitespace.
pub open spec fn spec_parse_op(s: Seq<char>, i: int) -> PStep<PairOp> {
    if !(0 <= i < s.len()) {
        PStep::PFail { pos: i, expected: Expected::Operator }
    } else if s[i] == '=' {
        if i + 1 < s.len() && s[i + 1] == '=' {
            PStep::POk { val: PairOp::Compare(ComparisonExpr::Eq), next: i + 2 }
        } else {
            PStep::POk { val: PairOp::Compare(ComparisonExpr::Eq), next: i + 1 }
        }
    } else if s[i] == '!' {
        if i + 1 < s.len() && s[i + 1] == '=' {
            PStep::POk { val: PairOp::Compare(ComparisonExpr::NotEq), next: i + 2 }
        } else {
            PStep::PFail { pos: i, expected: Expected::Operator }
        }
    } else if s[i] == '>' {
        if i + 1 < s.len() && s[i + 1] == '=' {
            PStep::POk { val: PairOp::Compare(ComparisonExpr::MoreEq), next: i + 2 }
        } else {
            PStep::POk { val: PairOp::Compare(ComparisonExpr::More), next: i + 1 }
        }
    } else if s[i] == '<' {
        if i + 1 < s.len() && s[i + 1] == '=' {
            PStep::POk { val: PairOp::Compare(ComparisonExpr::LessEq), next: i + 2 }
        } else {
            PStep::POk { val: PairOp::Compare(ComparisonExpr::Less), next: i + 1 }
        }
    } else if is_word_char(s[i]) {
        let j = spec_word_end(s, i);
        match spec_membership_keyword(s.subrange(i, j)) {
            Some(ae) => PStep::POk { val: PairOp::Member(ae), next: j },
            None => if spec_not_keyword(s.subrange(i, j)) {
                let k = spec_skip_space(s, j);
                let j2 = spec_word_end(s, k);
                if spec_membership_keyword(s.subrange(k, j2)) == Some(ArrayExpr::In) {
                    PStep::POk { val: PairOp::Member(ArrayExpr::NotIn), next: j2 }
                } else {
                    PStep::PFail { pos: k, expected: Expected::MembershipKeyword }
                }
            } else {
                PStep::PFail { pos: i, expected: Expected::Operator }
            },
        }
    } else {
        PStep::PFail { pos: i, expected: Expected::Operator }
    }
}

/// Parses one term at `i`: a `variable operator value` pair, a `variable
/// membership list` pair, a parenthesized scope, or `!` before a scope,
/// which adds a negate marker for the enclosing level beside the scope.
pub open spec fn spec_parse_term(s: Seq<char>, i: int) -> PStep<Seq<SpecClause>>
    decreases s.len() - i, 1int,
{
    if !(0 <= i < s.len()) {
        PStep::PFail { pos: i, expected: Expected::Clause }
    } else if s[i] == '!' {
        let j = spec_skip_space(s, i + 1);
        if i + 1 <= j && j < s.len() && s[j] == '(' {
            match spec_parse_level(s, j + 1) {
                PStep::POk { val: inner, next } => if next < s.len() && s[next] == ')' {
                    PStep::POk {
                        val: seq![SpecClause::NegateMarker, SpecClause::Scope { inner }],
                        next: next + 1,
                    }
                } else {
                    PStep::PFail { pos: next, expected: Expected::ScopeClose }
                },
                PStep::PFail { pos, expected } => PStep::PFail { pos, expected },
            }
        } else {
            PStep::PFail { pos: j, expected: Expected::ScopeOpen }
        }
    } else if s[i] == '(' {
        match spec_parse_level(s, i + 1) {
            PStep::POk { val: inner, next } => if next < s.len() && s[next] == ')' {
                PStep::POk { val: seq![SpecClause::Scope { inner }], next: next + 1 }
            } else {
                PStep::PFail { pos: next, expected: Expected::ScopeClose }
            },
            PStep::PFail { pos, expected } => PStep::PFail { pos, expected },
        }
    } else if is_word_char(s[i]) {
        let j = spec_word_end(s, i);
        let variable = s.subrange(i, j);
        match spec_parse_op(s, spec_skip_space(s, j)) {
            PStep::POk { val: PairOp::Compare(op), next } => {
                match spec_parse_value(s, spec_skip_space(s, next)) {
                    PStep::POk { val: lit, next: after } => PStep::POk {
                        val: seq![SpecClause::Predicate { variable, operator: op, value: lit }],
                        next: after,
                    },
                    PStep::PFail { pos, expected } => PStep::PFail { pos, expected },
                }
            },
            PStep::POk { val: PairOp::Member(ae), next } => {
                match spec_parse_list(s, spec_skip_space(s, next)) {
                    PStep::POk { val: vals, next: after } => PStep::POk {
                        val: seq![
                            SpecClause::Membership {
                                variable,
                                negated: ae is NotIn,
                                values: vals,
                            },
                        ],
                        next: after,
                    },
                    PStep::PFail { pos, expected } => PStep::PFail { pos, expected },
                }
            },
            PStep::PFail { pos, expected } => PStep::PFail { pos, expected },
        }
    } else {
        PStep::PFail { pos: i, expected: Expected::Clause }
    }
}

/// Parses the rest of a level after a term: nothing more before a closing
/// parenthesis or the end of the input, or a logic keyword and a further
/// term.
pub open spec fn spec_parse_more(s: Seq<char>, i: int, acc: Seq<SpecClause>) -> PStep<
    Seq<SpecClause>,
>
    decreases s.len() - i, 2int,
{
    let j = spec_skip_space(s, i);
    if !(i <= j <= s.len()) {
        PStep::PFail { pos: i, expected: Expected::LogicKeyword }
    } else if j == s.len() || s[j] == ')' {
        PStep::POk { val: acc, next: j }
    } else if is_word_char(s[j]) {
        let w_end = spec_word_end(s, j);
        if !(j < w_end && w_end <= s.len()) {
            PStep::PFail { pos: j, expected: Expected::LogicKeyword }
        } else {
            match spec_logic_keyword(s.subrange(j, w_end)) {
                Some(op) => {
                    let k = spec_skip_space(s, w_end);
                    if !(i < k && k <= s.len()) {
                        PStep::PFail { pos: j, expected: Expected::LogicKeyword }
                    } else {
                        match spec_parse_term(s, k) {
                            PStep::POk { val, next } => if i < next <= s.len() {
                                spec_parse_more(
                                    s,
                                    next,
                                    acc + seq![SpecClause::LogicToken { op }] + val,
                                )
                            } else {
                                PStep::PFail { pos: k, expected: Expected::Clause }
                            },
                            PStep::PFail { pos, expected } => PStep::PFail { pos, expected },
                        }
                    }
                },
                None => PStep::PFail { pos: j, expected: Expected::LogicKeyword },
            }
        }
    } else {
        PStep::PFail { pos: j, expected: Expected::LogicKeyword }
    }
}

/// Parses one nesting level at `i`: a term, then any number of
/// `logic-keyword term` steps, stopping before a closing parenthesis or at
/// the end of the input.
pub open spec fn spec_parse_level(s: Seq<char>, i: int) -> PStep<Seq<SpecClause>>
    decreases s.len() - i, 3int,
{
    let j = spec_skip_space(s, i);
    if !(i <= j && j <= s.len()) {
        PStep::PFail { pos: i, expected: Expected::Clause }
    } else {
        match spec_parse_term(s, j) {
            PStep::POk { val, next } => if i < next <= s.len() {
                spec_parse_more(s, next, val)
            } else {
                PStep::PFail { pos: j, expected: Expected::Clause }
            },
            PStep::PFail { pos, expected } => PStep::PFail { pos, expected },
        }
    }
}

/// Parses a whole expression: one level that must consume the entire
/// input. Any text that does not match the grammar fails with the position
/// that could not be parsed; there is no partial result.
pub open spec fn spec_parse(s: Seq<char>) -> PStep<Seq<SpecClause>> {
    match spec_parse_level(s, 0) {
        PStep::POk { val, next } => if next == s.len() {
            PStep::POk { val, next }
        } else {
            PStep::PFail { pos: next, expected: Expected::End }
        },
        PStep::PFail { pos, expected } => PStep::PFail { pos, expected },
    }
}

/// The end of a word stays inside the input and never lies before its
/// start; it lies strictly after the start when a word character stands
/// there.
pub proof fn lemma_word_end_bounds(s: Seq<char>, i: int)
    requires
        0 <= i <= s.len(),
    ensures
        i <= spec_word_end(s, i) <= s.len(),
        i < s.len() && is_word_char(s[i]) ==> i < spec_word_end(s, i),
    decreases s.len() - i,
{
    if i < s.len() && is_word_char(s[i]) {
        lemma_word_end_bounds(s, i + 1);
    }
}

/// A list keeps every literal it has gathered: parsing the rest of a
/// membership list never shortens the accumulator.
proof fn lemma_list_rest_len(s: Seq<char>, i: int, acc: Seq<SpecLiteral>)
    ensures
        (spec_parse_list_rest(s, i, acc) matches PStep::POk { val, .. } ==> val.len()
            >= acc.len()),
    decreases s.len() - i,
{
    let j = spec_skip_space(s, i);
    if i <= j < s.len() && s[j] != ')' && s[j] == ',' {
        match spec_parse_value(s, spec_skip_space(s, j + 1)) {
            PStep::POk { val, next } => {
                if i < next <= s.len() {
                    lemma_list_rest_len(s, next, acc.push(val));
                }
            },
            PStep::PFail { .. } => {},
        }
    }
}

/// A membership list that parses holds at least one literal.
proof fn lemma_list_nonempty(s: Seq<char>, i: int)
    ensures
        (spec_parse_list(s, i) matches PStep::POk { val, .. } ==> val.len() >= 1),
{
    if 0 <= i < s.len() && s[i] == '(' {
        match spec_parse_value(s, spec_skip_space(s, i + 1)) {
            PStep::POk { val, next } => {
                if i < next <= s.len() {
                    lemma_list_rest_len(s, next, seq![val]);
                }
            },
            PStep::PFail { .. } => {},
        }
    }
}

/// A term that parses is well-formed: every membership list in it holds
/// at least one literal.
proof fn lemma_term_wf(s: Seq<char>, i: int)
    ensures
        (spec_parse_term(s, i) matches PStep::POk { val, .. } ==> wf_clauses(val)),
    decreases s.len() - i, 1int,
{
    if 0 <= i < s.len() {
        if s[i] == '!' {
            let j = spec_skip_space(s, i + 1);
            if i + 1 <= j && j < s.len() && s[j] == '(' {
                lemma_level_wf(s, j + 1);
                match spec_parse_level(s, j + 1) {
                    PStep::POk { val: inner, next } => {
                        if next < s.len() && s[next] == ')' {
                            let out = seq![
                                SpecClause::NegateMarker,
                                SpecClause::Scope { inner },
                            ];
                            assert(wf_clause(out[0]));
                            assert(wf_clause(out[1]));
                        }
                    },
                    PStep::PFail { .. } => {},
                }
            }
        } else if s[i] == '(' {
            lemma_level_wf(s, i + 1);
            match spec_parse_level(s, i + 1) {
                PStep::POk { val: inner, next } => {
                    if next < s.len() && s[next] == ')' {
                        let out = seq![SpecClause::Scope { inner }];
                        assert(wf_clause(out[0]));
                    }
                },
                PStep::PFail { .. } => {},
            }
        } else if is_word_char(s[i]) {
            let j = spec_word_end(s, i);
            let variable = s.subrange(i, j);
            match spec_parse_op(s, spec_skip_space(s, j)) {
                PStep::POk { val: PairOp::Compare(op), next } => {
                    match spec_parse_value(s, spec_skip_space(s, next)) {
                        PStep::POk { val: lit, .. } => {
                            let out = seq![
                                SpecClause::Predicate { variable, operator: op, value: lit },
                            ];
                            assert(wf_clause(out[0]));
                        },
                        PStep::PFail { .. } => {},
                    }
                },
                PStep::POk { val: PairOp::Member(ae), next } => {
                    let k2 = spec_skip_space(s, next);
                    lemma_list_nonempty(s, k2);
                    match spec_parse_list(s, k2) {
                        PStep::POk { val: vals, .. } => {
                            let out = seq![
                                SpecClause::Membership {
                                    variable,
                                    negated: ae is NotIn,
                                    values: vals,
                                },
                            ];
                            assert(wf_clause(out[0]));
                        },
                        PStep::PFail { .. } => {},
                    }
                },
                PStep::PFail { .. } => {},
            }
        }
    }
}

/// The rest of a level keeps well-formedness: folding further terms onto
/// well-formed clauses yields well-formed clauses.
proof fn lemma_more_wf(s: Seq<char>, i: int, acc: Seq<SpecClause>)
    requires
        wf_clauses(acc),
    ensures
        (spec_parse_more(s, i, acc) matches PStep::POk { val, .. } ==> wf_clauses(val)),
    decreases s.len() - i, 2int,
{
    let j = spec_skip_space(s, i);
    if i <= j <= s.len() && !(j == s.len() || s[j] == ')') && is_word_char(s[j]) {
        let w_end = spec_word_end(s, j);
        if j < w_end && w_end <= s.len() {
            match spec_logic_keyword(s.subrange(j, w_end)) {
                Some(op) => {
                    let k = spec_skip_space(s, w_end);
                    if i < k && k <= s.len() {
                        lemma_term_wf(s, k);
                        match spec_parse_term(s, k) {
                            PStep::POk { val, next } => {
                                if i < next <= s.len() {
                                    let acc2 = acc + seq![SpecClause::LogicToken { op }] + val;
                                    assert(wf_clauses(acc2)) by {
                                        assert forall|t: int|
                                            0 <= t < acc2.len() implies wf_clause(
                                            #[trigger] acc2[t],
                                        ) by {
                                            if t < acc.len() {
                                                assert(acc2[t] == acc[t]);
                                            } else if t == acc.len() {
                                                assert(acc2[t] == (SpecClause::LogicToken {
                                                    op,
                                                }));
                                            } else {
                                                assert(acc2[t] == val[t - acc.len() - 1]);
                                            }
                                        }
                                    }
                                    lemma_more_wf(s, next, acc2);
                                }
                            },
                            PStep::PFail { .. } => {},
                        }
                    }
                },
                None => {},
            }
        }
    }
}

/// A level that parses is well-formed.
proof fn lemma_level_wf(s: Seq<char>, i: int)
    ensures
        (spec_parse_level(s, i) matches PStep::POk { val, .. } ==> wf_clauses(val)),
    decreases s.len() - i, 3int,
{
    let j = spec_skip_space(s, i);
    if i <= j && j <= s.len() {
        lemma_term_wf(s, j);
        match spec_parse_term(s, j) {
            PStep::POk { val, next } => {
                if i < next <= s.len() {
                    lemma_more_wf(s, next, val);
                }
            },
            PStep::PFail { .. } => {},
        }
    }
}

/// Syntactically valid input yields a well-formed tree: every membership
/// list of a parsed expression holds at least one literal, at every
/// nesting depth. The evaluator does not assume this; it merely holds.
pub proof fn lemma_parse_well_formed(s: Seq<char>)
    ensures
        (spec_parse(s) matches PStep::POk { val, .. } ==> wf_clauses(val)),
{
    lemma_level_wf(s, 0);
}

/// The quote character that closes a quoted string is the first one after
/// the opening quote.
proof fn lemma_find_close_at(s: Seq<char>, i: int, k: int, q: char)
    requires
        0 <= i <= k < s.len(),
        s[k] == q,
        forall|j: int| i <= j < k ==> s[j] != q,
    ensures
        spec_find_close(s, i, q) == Some(k),
    decreases k - i,
{
    if i < k {
        lemma_find_close_at(s, i + 1, k, q);
    }
}

/// Single and double quotes delimit the same literals: the same content
/// between matching quotes of either kind parses to the identical quoted
/// string, the quotes stripped.
pub proof fn lemma_quoting_equivalent(content: Seq<char>)
    requires
        !content.contains('\''),
        !content.contains('"'),
    ensures
        spec_parse_value(seq!['\''] + content + seq!['\''], 0) == (PStep::POk {
            val: SpecLiteral::QuotedString { text: content },
            next: content.len() as int + 2,
        }),
        spec_parse_value(seq!['"'] + content + seq!['"'], 0) == (PStep::POk {
            val: SpecLiteral::QuotedString { text: content },
            next: content.len() as int + 2,
        }),
{
    lemma_quoted_value(content, '\'');
    lemma_quoted_value(content, '"');
}

/// Content without the quote character, wrapped in that quote, parses to
/// exactly that content.
proof fn lemma_quoted_value(content: Seq<char>, q: char)
    requires
        q == '\'' || q == '"',
        !content.contains(q),
    ensures
        spec_parse_value(seq![q] + content + seq![q], 0) == (PStep::POk {
            val: SpecLiteral::QuotedString { text: content },
            next: content.len() as int + 2,
        }),
{
    let s = seq![q] + content + seq![q];
    assert(s.len() == content.len() + 2);
    assert(s[0] == q);
    let close = content.len() + 1;
    assert(s[close as int] == q);
    assert forall|j: int| 1 <= j < close implies s[j] != q by {
        assert(s[j] == content[j - 1]);
        if content[j - 1] == q {
            assert(content.contains(q));
        }
    }
    lemma_find_close_at(s, 1, close as int, q);
    assert(s.subrange(1, close as int) =~= content);
}

} // verus!
