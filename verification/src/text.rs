//! Character classes of the expression grammar, and parsing of signed
//! decimal integers, shared by the parser (to tag numeric literals) and the
//! evaluator (to read a context value for an ordering comparison).

use vstd::prelude::*;

verus! {

/// Whitespace that is insignificant between tokens.
pub open spec fn is_space_char(c: char) -> bool {
    c == ' ' || c == '\t' || c == '\r' || c == '\n'
}

/// Characters allowed in variable names and bare literal tokens: letters,
/// digits, underscore, and hyphen (so UUID-like tokens are single words).
pub open spec fn is_word_char(c: char) -> bool {
    ('a' <= c && c <= 'z') || ('A' <= c && c <= 'Z') || ('0' <= c && c <= '9') || c == '_'
        || c == '-'
}

pub open spec fn is_digit_char(c: char) -> bool {
    '0' <= c && c <= '9'
}

pub open spec fn digit_value(c: char) -> int {
    c as int - '0' as int
}

/// ASCII upper-case letters mapped to lower case; all other characters kept.
pub open spec fn lower_char(c: char) -> char {
    if 'A' <= c && c <= 'Z' {
        ((c as u8) + 32) as char
    } else {
        c
    }
}

/// A character sequence with each ASCII upper-case letter lower-cased.
pub open spec fn lower_seq(s: Seq<char>) -> Seq<char> {
    Seq::new(s.len(), |i: int| lower_char(s[i]))
}

pub open spec fn all_digits(s: Seq<char>) -> bool {
    forall|i: int| 0 <= i < s.len() ==> is_digit_char(#[trigger] s[i])
}

/// The value of a non-empty digit string read in base 10.
pub open spec fn digits_value(s: Seq<char>) -> int
    decreases s.len(),
{
    if s.len() == 0 {
        0
    } else {
        10 * digits_value(s.drop_last()) + digit_value(s.last())
    }
}

/// Text accepted as a signed decimal integer: an optional `+` or `-` sign
/// followed by one or more ASCII digits, and nothing else.
pub open spec fn is_int_text(s: Seq<char>) -> bool {
    if s.len() == 0 {
        false
    } else if s[0] == '+' || s[0] == '-' {
        s.len() >= 2 && all_digits(s.skip(1))
    } else {
        all_digits(s)
    }
}

/// The mathematical value of integer text (meaningful when `is_int_text`).
pub open spec fn int_text_value(s: Seq<char>) -> int {
    if s.len() == 0 {
        0
    } else if s[0] == '-' {
        -digits_value(s.skip(1))
    } else if s[0] == '+' {
        digits_value(s.skip(1))
    } else {
        digits_value(s)
    }
}

/// What reading text as a 64-bit signed integer yields: the value when the
/// text is well-formed integer text and the value fits, nothing otherwise.
pub open spec fn spec_parse_i64(s: Seq<char>) -> Option<int> {
    if is_int_text(s) && i64::MIN <= int_text_value(s) <= i64::MAX {
        Some(int_text_value(s))
    } else {
        None
    }
}

pub fn is_space(c: char) -> (r: bool)
    ensures
        r == is_space_char(c),
{
    c == ' ' || c == '\t' || c == '\r' || c == '\n'
}

pub fn is_word(c: char) -> (r: bool)
    ensures
        r == is_word_char(c),
{
    ('a' <= c && c <= 'z') || ('A' <= c && c <= 'Z') || ('0' <= c && c <= '9') || c == '_'
        || c == '-'
}

pub fn is_digit(c: char) -> (r: bool)
    ensures
        r == is_digit_char(c),
{
    '0' <= c && c <= '9'
}

pub fn to_lower(c: char) -> (r: char)
    ensures
        r == lower_char(c),
{
    if 'A' <= c && c <= 'Z' {
        ((c as u8) + 32) as char
    } else {
        c
    }
}

/// Character-for-character equality of two string slices.
pub fn str_eq(a: &str, b: &str) -> (r: bool)
    ensures
        r == (a@ == b@),
{
    let n = a.unicode_len();
    if n != b.unicode_len() {
        return false;
    }
    let mut i: usize = 0;
    while i < n
        invariant
            n == a@.len() == b@.len(),
            0 <= i <= n,
            forall|j: int| 0 <= j < i ==> a@[j] == b@[j],
        decreases n - i,
    {
        if a.get_char(i) != b.get_char(i) {
            return false;
        }
        i = i + 1;
    }
    proof {
        assert(a@ =~= b@);
    }
    true
}

/// Reads a string slice as an `i64`, as the specification `spec_parse_i64`
/// says: an optional sign, one or more digits, and a value in range.
pub fn parse_i64(s: &str) -> (r: Option<i64>)
    ensures
        match r {
            Some(v) => spec_parse_i64(s@) == Some(v as int),
            None => spec_parse_i64(s@) is None,
        },
{
    let n = s.unicode_len();
    if n == 0 {
        return None;
    }
    let first = s.get_char(0);
    let negative = first == '-';
    let start: usize = if first == '-' || first == '+' {
        1
    } else {
        0
    };
    if n == start {
        // A bare sign with no digits.
        return None;
    }
    // Largest magnitude allowed: i64::MAX for non-negative text,
    // one more for negative text.
    let limit: u64 = if negative {
        9223372036854775808
    } else {
        9223372036854775807
    };
    let ghost digits = s@.skip(start as int);
    let mut acc: u64 = 0;
    let mut i: usize = start;
    while i < n
        invariant
            start <= i <= n,
            n == s@.len(),
            first == s@[0],
            negative == (first == '-'),
            start == (if first == '-' || first == '+' {
                1int
            } else {
                0int
            }),
            limit == (if negative {
                i64::MAX + 1
            } else {
                i64::MAX as int
            }),
            digits == s@.skip(start as int),
            all_digits(digits.take(i - start)),
            acc == digits_value(digits.take(i - start)),
            acc <= limit,
        decreases n - i,
    {
        let c = s.get_char(i);
        proof {
            assert(digits[i - start] == s@[i as int]);
        }
        if !is_digit(c) {
            proof {
                lemma_not_int_text_without_digits(s@, start as int, i as int);
            }
            return None;
        }
        let d: u64 = (c as u8 - 48) as u64;
        proof {
            assert(d == digit_value(c));
            assert(digits.take(i - start + 1).drop_last() =~= digits.take(i - start));
            assert(digits.take(i - start + 1).last() == digits[i - start]);
            assert(all_digits(digits.take(i - start + 1))) by {
                assert(forall|j: int|
                    0 <= j < i - start ==> #[trigger] digits.take(i - start + 1)[j] == digits.take(
                        i - start,
                    )[j]);
            }
            assert(digits_value(digits.take(i - start + 1)) == 10 * acc + d);
        }
        if acc > (limit - d) / 10 {
            proof {
                assert(10 * ((limit - d) / 10) <= limit - d) by {
                    assert(limit - d == 10 * ((limit - d) / 10) + (limit - d) % 10);
                    assert((limit - d) % 10 >= 0);
                }
                assert(10 * acc + d > limit);
                lemma_out_of_range(s@, start as int, limit as int, 10 * acc + d);
            }
            return None;
        }
        proof {
            assert(10 * ((limit - d) / 10) <= limit - d) by {
                assert(limit - d == 10 * ((limit - d) / 10) + (limit - d) % 10);
                assert((limit - d) % 10 >= 0);
            }
            assert(10 * acc + d <= limit);
        }
        acc = acc * 10 + d;
        i = i + 1;
    }
    proof {
        assert(digits.take(n - start) =~= digits);
        lemma_int_text_shape(s@, start as int);
    }
    if negative {
        if acc == 9223372036854775808 {
            Some(i64::MIN)
        } else {
            Some(-(acc as i64))
        }
    } else {
        Some(acc as i64)
    }
}

/// All digits are non-negative, so a digit string's value is non-negative.
proof fn lemma_digits_value_nonneg(s: Seq<char>)
    requires
        all_digits(s),
    ensures
        digits_value(s) >= 0,
    decreases s.len(),
{
    if s.len() > 0 {
        assert(all_digits(s.drop_last())) by {
            assert(forall|i: int|
                0 <= i < s.len() - 1 ==> #[trigger] s.drop_last()[i] == s[i]);
        }
        lemma_digits_value_nonneg(s.drop_last());
    }
}

/// Extending a digit string can only grow its value: the value of a prefix
/// bounds the value of the whole from below.
proof fn lemma_digits_value_grows(s: Seq<char>, k: int)
    requires
        all_digits(s),
        0 <= k <= s.len(),
    ensures
        digits_value(s.take(k)) <= digits_value(s),
    decreases s.len() - k,
{
    if k < s.len() {
        let t = s.take(k + 1);
        assert(t.drop_last() =~= s.take(k));
        assert(all_digits(t)) by {
            assert(forall|i: int| 0 <= i < k + 1 ==> #[trigger] t[i] == s[i]);
        }
        assert(all_digits(s.take(k))) by {
            assert(forall|i: int| 0 <= i < k ==> #[trigger] s.take(k)[i] == s[i]);
        }
        lemma_digits_value_nonneg(s.take(k));
        assert(digits_value(t) == 10 * digits_value(s.take(k)) + digit_value(s[k]));
        assert(digit_value(s[k]) >= 0);
        assert(digits_value(s.take(k)) <= digits_value(t));
        lemma_digits_value_grows(s, k + 1);
        assert(s.take(s.len() as int) =~= s);
    } else {
        assert(s.take(k) =~= s);
    }
}

/// Text with a non-digit character after the sign is not integer text.
proof fn lemma_not_int_text_without_digits(s: Seq<char>, start: int, i: int)
    requires
        s.len() > 0,
        start == (if s[0] == '+' || s[0] == '-' {
            1int
        } else {
            0int
        }),
        start <= i < s.len(),
        !is_digit_char(s[i]),
    ensures
        spec_parse_i64(s) is None,
{
    if is_int_text(s) {
        if start == 1 {
            assert(s.skip(1)[i - 1] == s[i]);
        }
    }
}

/// Digits of the tail of all-digit text are digits of the text.
proof fn lemma_all_digits_skip(s: Seq<char>, start: int)
    requires
        0 <= start <= s.len(),
        start == 0 || start == 1,
        start == 0 ==> all_digits(s),
        start == 1 ==> s.len() >= 1 && all_digits(s.skip(1)),
    ensures
        all_digits(s.skip(start)),
{
    if start == 0 {
        assert(s.skip(0) =~= s);
    }
}

/// Once the digits read so far exceed the magnitude limit, the whole text
/// is out of range, whatever follows.
proof fn lemma_out_of_range(s: Seq<char>, start: int, limit: int, partial: int)
    requires
        s.len() > 0,
        start == (if s[0] == '+' || s[0] == '-' {
            1int
        } else {
            0int
        }),
        limit == (if s[0] == '-' {
            i64::MAX + 1
        } else {
            i64::MAX as int
        }),
        exists|k: int|
            0 <= k <= s.len() - start && all_digits(#[trigger] s.skip(start).take(k))
                && digits_value(s.skip(start).take(k)) == partial,
        partial > limit,
    ensures
        spec_parse_i64(s) is None,
{
    if is_int_text(s) {
        let digits = s.skip(start);
        let k = choose|k: int|
            0 <= k <= s.len() - start && all_digits(#[trigger] digits.take(k)) && digits_value(
                digits.take(k),
            ) == partial;
        lemma_all_digits_skip(s, start);
        lemma_digits_value_grows(digits, k);
        assert(digits_value(digits) >= partial);
        if s[0] == '-' {
            assert(int_text_value(s) == -digits_value(digits));
            assert(int_text_value(s) < i64::MIN);
        } else if s[0] == '+' {
            assert(int_text_value(s) > i64::MAX);
        } else {
            assert(s.skip(0) =~= s);
            assert(int_text_value(s) > i64::MAX);
        }
    }
}

/// Well-formed sign-and-digits text is integer text with the value the
/// digits give it.
proof fn lemma_int_text_shape(s: Seq<char>, start: int)
    requires
        s.len() > start,
        start == 0 || ((s[0] == '+' || s[0] == '-') && start == 1),
        start == 0 ==> s[0] != '+' && s[0] != '-',
        all_digits(s.skip(start)),
    ensures
        is_int_text(s),
        int_text_value(s) == if s[0] == '-' {
            -digits_value(s.skip(start))
        } else {
            digits_value(s.skip(start))
        },
{
    if start == 0 {
        assert(s.skip(0) =~= s);
    }
}

} // verus!
