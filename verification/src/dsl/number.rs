//! Reading numbers written as text.

use crate::utils::parsing::chars_of;
use vstd::prelude::*;

verus! {

/// The longest text that is read as a number with a fraction or an
/// exponent, in characters.
pub const MAX_NUMBER_LEN: usize = 4096;

/// Positive infinity.
pub const POSITIVE_INFINITY: u32 = 0x7f80_0000;

/// Negative infinity.
pub const NEGATIVE_INFINITY: u32 = 0xff80_0000;

/// The NaN that the word `nan` stands for.
pub const POSITIVE_NAN: u32 = 0x7fc0_0000;

/// The NaN that the word `-nan` stands for.
pub const NEGATIVE_NAN: u32 = 0xffc0_0000;

/// Whether a character is a decimal digit.
pub open spec fn is_digit(c: char) -> bool {
    '0' <= c <= '9'
}

/// The first position at or after `from` that holds no digit.
pub open spec fn digits_end(s: Seq<char>, from: int) -> int
    decreases s.len() - from,
{
    if 0 <= from < s.len() && is_digit(s[from]) {
        digits_end(s, from + 1)
    } else {
        from
    }
}

/// Whether a text begins with a sign.
pub open spec fn has_sign(s: Seq<char>) -> bool {
    s.len() > 0 && (s[0] == '+' || s[0] == '-')
}

/// Where the number of a text begins: after its sign, if it has one.
pub open spec fn after_sign(s: Seq<char>) -> int {
    if has_sign(s) {
        1
    } else {
        0
    }
}

/// An ASCII letter in lower case; every other character as it is.
pub open spec fn lowered(c: char) -> char {
    if 'A' <= c <= 'Z' {
        ((c as u8) + 32) as char
    } else {
        c
    }
}

/// Whether the text from `from` to its end is the given word, in upper or
/// lower case. The word is given in lower case.
pub open spec fn is_word_from(s: Seq<char>, from: int, word: Seq<char>) -> bool {
    &&& 0 <= from
    &&& s.len() - from == word.len()
    &&& forall|k: int| 0 <= k < word.len() ==> lowered(#[trigger] s[from + k]) == word[k]
}

/// Whether the text from `from` on is an exponent: an optional sign and
/// at least one digit, up to the end of the text.
pub open spec fn is_exponent(s: Seq<char>, from: int) -> bool {
    let start = if from < s.len() && (s[from] == '+' || s[from] == '-') {
        from + 1
    } else {
        from
    };
    start < s.len() && digits_end(s, start) == s.len()
}

/// Whether the text from `from` to its end is a decimal number: digits
/// with at most one point among them, at least one digit in all, and
/// then perhaps `e` or `E` with an exponent.
pub open spec fn is_decimal_from(s: Seq<char>, from: int) -> bool {
    let whole_end = digits_end(s, from);
    let has_point = whole_end < s.len() && s[whole_end] == '.';
    let fraction_start = if has_point {
        whole_end + 1
    } else {
        whole_end
    };
    let fraction_end = digits_end(s, fraction_start);
    &&& 0 <= from
    &&& whole_end > from || fraction_end > fraction_start
    &&& fraction_end == s.len() || ((s[fraction_end] == 'e' || s[fraction_end] == 'E')
        && is_exponent(s, fraction_end + 1))
}

/// Whether a text is a decimal number with an optional sign, no longer
/// than [`MAX_NUMBER_LEN`].
pub open spec fn is_decimal(s: Seq<char>) -> bool {
    s.len() <= MAX_NUMBER_LEN && is_decimal_from(s, after_sign(s))
}

/// The number a decimal text stands for, rounded to single precision by
/// `rustc_apfloat`, as its bit pattern.
pub uninterp spec fn float_of_decimal(text: Seq<char>) -> Option<u32>;

/// Calls `str::parse` for `rustc_apfloat::ieee::Single`, which reads a
/// decimal number and rounds it to the nearest single-precision number,
/// ties to even. The text must be a decimal number with an optional sign,
/// of bounded length. The contract only names the result.
#[verifier::external_body]
fn rounded_decimal(text: &str) -> (r: Option<u32>)
    requires
        is_decimal(text@),
    ensures
        r == float_of_decimal(text@),
{
    match text.parse::<rustc_apfloat::ieee::Single>() {
        Ok(single) => Some(rustc_apfloat::Float::to_bits(single) as u32),
        Err(_) => None,
    }
}

/// The single-precision number a text stands for, as its bit pattern.
/// After an optional sign stands `inf`, `infinity` or `nan`, in upper or
/// lower case, or a decimal number. There is no white space. A text that
/// is none of these stands for no number.
pub open spec fn float_text_value(s: Seq<char>) -> Option<u32> {
    let start = after_sign(s);
    let negative = s.len() > 0 && s[0] == '-';
    if is_word_from(s, start, "inf"@) || is_word_from(s, start, "infinity"@) {
        Some(
            if negative {
                NEGATIVE_INFINITY
            } else {
                POSITIVE_INFINITY
            },
        )
    } else if is_word_from(s, start, "nan"@) {
        Some(
            if negative {
                NEGATIVE_NAN
            } else {
                POSITIVE_NAN
            },
        )
    } else if is_decimal(s) {
        float_of_decimal(s)
    } else {
        None
    }
}

/// Computes [`lowered`].
fn lower(c: char) -> (r: char)
    ensures
        r == lowered(c),
{
    if 'A' <= c && c <= 'Z' {
        ((c as u8) + 32) as char
    } else {
        c
    }
}

/// Computes [`digits_end`].
pub fn skip_digits(s: &Vec<char>, from: usize) -> (r: usize)
    requires
        from <= s@.len(),
    ensures
        r == digits_end(s@, from as int),
        from <= r <= s@.len(),
{
    let mut i: usize = from;
    while i < s.len() && '0' <= s[i] && s[i] <= '9'
        invariant
            from <= i <= s@.len(),
            digits_end(s@, from as int) == digits_end(s@, i as int),
        decreases s@.len() - i,
    {
        i += 1;
    }
    i
}

/// Computes [`is_word_from`].
pub fn word_from(s: &Vec<char>, from: usize, word: &str) -> (r: bool)
    requires
        from <= s@.len(),
    ensures
        r == is_word_from(s@, from as int, word@),
{
    let letters = chars_of(word);
    if s.len() - from != letters.len() {
        return false;
    }
    let mut k: usize = 0;
    while k < letters.len()
        invariant
            from <= s@.len() <= usize::MAX,
            letters@ == word@,
            s@.len() - from == letters@.len(),
            k <= letters@.len(),
            forall|j: int| 0 <= j < k ==> lowered(#[trigger] s@[from + j]) == word@[j],
        decreases letters@.len() - k,
    {
        if lower(s[from + k]) != letters[k] {
            return false;
        }
        k += 1;
    }
    true
}

/// Computes [`is_decimal_from`].
fn decimal_from(s: &Vec<char>, from: usize) -> (r: bool)
    requires
        from <= s@.len(),
    ensures
        r == is_decimal_from(s@, from as int),
{
    let n = s.len();
    let whole_end = skip_digits(s, from);
    let has_point = whole_end < n && s[whole_end] == '.';
    let fraction_start = if has_point {
        whole_end + 1
    } else {
        whole_end
    };
    let fraction_end = skip_digits(s, fraction_start);
    if !(whole_end > from || fraction_end > fraction_start) {
        return false;
    }
    if fraction_end == n {
        return true;
    }
    if !(s[fraction_end] == 'e' || s[fraction_end] == 'E') {
        return false;
    }
    let p = fraction_end + 1;
    let start = if p < n && (s[p] == '+' || s[p] == '-') {
        p + 1
    } else {
        p
    };
    start < n && skip_digits(s, start) == n
}

/// The single-precision number a text stands for: see
/// [`float_text_value`].
pub fn parse_float(text: &str) -> (r: Option<u32>)
    ensures
        r == float_text_value(text@),
{
    let all = chars_of(text);
    let n = all.len();
    let start: usize = if n > 0 && (all[0] == '+' || all[0] == '-') {
        1
    } else {
        0
    };
    let negative = n > 0 && all[0] == '-';
    if word_from(&all, start, "inf") || word_from(&all, start, "infinity") {
        return Some(
            if negative {
                NEGATIVE_INFINITY
            } else {
                POSITIVE_INFINITY
            },
        );
    }
    if word_from(&all, start, "nan") {
        return Some(
            if negative {
                NEGATIVE_NAN
            } else {
                POSITIVE_NAN
            },
        );
    }
    if n <= MAX_NUMBER_LEN && decimal_from(&all, start) {
        rounded_decimal(text)
    } else {
        None
    }
}

/// The value of the digits between `from` and `to`, counted below zero:
/// the negative of the number they write. `None` when a character there
/// is no digit.
pub open spec fn negated_digits(s: Seq<char>, from: int, to: int) -> Option<int>
    decreases to - from,
{
    if to <= from {
        Some(0)
    } else {
        match negated_digits(s, from, to - 1) {
            Some(v) => if is_digit(s[to - 1]) {
                Some(v * 10 - (s[to - 1] as u32 - '0' as u32))
            } else {
                None
            },
            None => None,
        }
    }
}

/// The integer a text stands for: an optional sign and at least one
/// digit, with a value in the range of `i64`. There is no white space.
pub open spec fn integer_text_value(s: Seq<char>) -> Option<i64> {
    let start = after_sign(s);
    if start >= s.len() {
        None
    } else {
        match negated_digits(s, start, s.len() as int) {
            Some(v) => {
                let value = if s[0] == '-' {
                    v
                } else {
                    -v
                };
                if i64::MIN <= value <= i64::MAX {
                    Some(value as i64)
                } else {
                    None
                }
            },
            None => None,
        }
    }
}

/// The digits of a prefix have a value, and it is no less than the value
/// of the whole, both counted below zero.
pub proof fn lemma_negated_prefix(s: Seq<char>, from: int, mid: int, to: int)
    requires
        from <= mid <= to,
        negated_digits(s, from, to) is Some,
    ensures
        negated_digits(s, from, mid) is Some,
        negated_digits(s, from, to).unwrap() <= negated_digits(s, from, mid).unwrap() <= 0,
    decreases to - mid,
{
    if mid < to {
        lemma_negated_prefix(s, from, mid, to - 1);
    } else {
        lemma_negated_sign(s, from, to);
    }
}

/// Digits counted below zero have a value of at most zero.
pub proof fn lemma_negated_sign(s: Seq<char>, from: int, to: int)
    requires
        negated_digits(s, from, to) is Some,
    ensures
        negated_digits(s, from, to).unwrap() <= 0,
    decreases to - from,
{
    if to > from {
        lemma_negated_sign(s, from, to - 1);
    }
}

/// The integer a text stands for: see [`integer_text_value`].
pub fn parse_integer(text: &str) -> (r: Option<i64>)
    ensures
        r == integer_text_value(text@),
{
    let all = chars_of(text);
    let n = all.len();
    let start: usize = if n > 0 && (all[0] == '+' || all[0] == '-') {
        1
    } else {
        0
    };
    if start >= n {
        return None;
    }
    let negative = all[0] == '-';
    // The digits are counted below zero, where the range reaches one further.
    let mut value: i64 = 0;
    let mut i: usize = start;
    while i < n
        invariant
            all@ == text@,
            n == all@.len(),
            start == after_sign(all@),
            start <= i <= n,
            value <= 0,
            negated_digits(all@, start as int, i as int) == Some(value as int),
        decreases n - i,
    {
        let c = all[i];
        if !('0' <= c && c <= '9') {
            proof {
                if negated_digits(all@, start as int, n as int) is Some {
                    lemma_negated_prefix(all@, start as int, i + 1, n as int);
                }
            }
            return None;
        }
        let digit = (c as u32 - '0' as u32) as i64;
        let next = match value.checked_mul(10) {
            Some(tens) => tens.checked_sub(digit),
            None => None,
        };
        match next {
            Some(next) => {
                value = next;
            },
            None => {
                proof {
                    if negated_digits(all@, start as int, n as int) is Some {
                        lemma_negated_prefix(all@, start as int, i + 1, n as int);
                    }
                }
                return None;
            },
        }
        i += 1;
    }
    if negative {
        Some(value)
    } else if value == i64::MIN {
        None
    } else {
        Some(-value)
    }
}

} // verus!
