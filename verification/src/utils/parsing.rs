//! Parsing lists of numbers written as text.

use vstd::prelude::*;
use vstd::string::StrSliceExecFns;
use vstd::string::StringExecFns;

verus! {

/// Whether a character is white space.
pub open spec fn is_space(c: char) -> bool {
    let code = c as u32;
    (0x09 <= code <= 0x0d) || code == 0x20 || code == 0x85 || code == 0xa0 || code == 0x1680 || (
    0x2000 <= code <= 0x200a) || code == 0x2028 || code == 0x2029 || code == 0x202f || code
        == 0x205f || code == 0x3000
}

/// The first position at or after `from` that does not hold white space.
pub open spec fn first_solid(s: Seq<char>, from: int, to: int) -> int
    decreases to - from,
{
    if from < to && is_space(s[from]) {
        first_solid(s, from + 1, to)
    } else {
        from
    }
}

/// The end of the text between `from` and `to` without the white space at
/// its end.
pub open spec fn last_solid(s: Seq<char>, from: int, to: int) -> int
    decreases to - from,
{
    if from < to && is_space(s[to - 1]) {
        last_solid(s, from, to - 1)
    } else {
        to
    }
}

/// The text between `from` and `to` without the white space at its start
/// and at its end.
pub open spec fn trimmed(s: Seq<char>, from: int, to: int) -> Seq<char> {
    let start = first_solid(s, from, to);
    s.subrange(start, last_solid(s, start, to))
}

/// The first position at or after `from` that holds a comma, or the
/// length of the text when there is none.
pub open spec fn next_comma(s: Seq<char>, from: int) -> int
    decreases s.len() - from,
{
    if from < s.len() && s[from] != ',' {
        next_comma(s, from + 1)
    } else {
        from
    }
}

/// The value of the decimal digits between `from` and `to`, or `None`
/// when a character there is no digit.
pub open spec fn digits_value(s: Seq<char>, from: int, to: int) -> Option<nat>
    decreases to - from,
{
    if to <= from {
        Some(0)
    } else {
        match digits_value(s, from, to - 1) {
            Some(v) => if '0' <= s[to - 1] <= '9' {
                Some((v * 10 + (s[to - 1] as u32 - '0' as u32)) as nat)
            } else {
                None
            },
            None => None,
        }
    }
}

/// The number written between `from` and `to`: an optional `+` and then
/// at least one decimal digit, with a value that fits the machine.
pub open spec fn number_in(s: Seq<char>, from: int, to: int) -> Option<usize> {
    let start = if from < to && s[from] == '+' {
        from + 1
    } else {
        from
    };
    if start >= to {
        None
    } else {
        match digits_value(s, start, to) {
            Some(v) => if v <= usize::MAX {
                Some(v as usize)
            } else {
                None
            },
            None => None,
        }
    }
}

/// The numbers written from `from` on, separated by commas; each may be
/// surrounded by white space. `None` when one of them is no number.
pub open spec fn list_from(s: Seq<char>, from: int) -> Option<Seq<usize>>
    decreases s.len() - from,
{
    let comma = next_comma(s, from);
    let start = first_solid(s, from, comma);
    match number_in(s, start, last_solid(s, start, comma)) {
        Some(n) => if comma >= s.len() || from > s.len() {
            Some(seq![n])
        } else {
            match list_from(s, comma + 1) {
                Some(rest) => Some(seq![n] + rest),
                None => None,
            }
        },
        None => None,
    }
}

/// The list of numbers a text stands for: surrounded by white space or
/// not, it is a `[`, numbers separated by commas, and a `]`; between the
/// brackets there may be nothing but white space, which gives the empty
/// list.
pub open spec fn parsed_list(text: Seq<char>) -> Option<Seq<usize>> {
    let start = first_solid(text, 0, text.len() as int);
    let end = last_solid(text, start, text.len() as int);
    if end - start < 2 || text[start] != '[' || text[end - 1] != ']' {
        None
    } else {
        let inner = text.subrange(start + 1, end - 1);
        if first_solid(inner, 0, inner.len() as int) == inner.len() {
            Some(Seq::empty())
        } else {
            list_from(inner, 0)
        }
    }
}

/// The comma found is at or after the start and not past the end.
pub proof fn lemma_next_comma(s: Seq<char>, from: int)
    requires
        0 <= from <= s.len(),
    ensures
        from <= next_comma(s, from) <= s.len(),
        forall|k: int| from <= k < next_comma(s, from) ==> s[k] != ',',
        next_comma(s, from) < s.len() ==> s[next_comma(s, from)] == ',',
    decreases s.len() - from,
{
    if from < s.len() && s[from] != ',' {
        lemma_next_comma(s, from + 1);
    }
}

/// The digits of a prefix have a value, and it is no greater than the
/// value of the whole.
pub proof fn lemma_digits_prefix(s: Seq<char>, from: int, mid: int, to: int)
    requires
        from <= mid <= to,
        digits_value(s, from, to) is Some,
    ensures
        digits_value(s, from, mid) is Some,
        digits_value(s, from, mid).unwrap() <= digits_value(s, from, to).unwrap(),
    decreases to - mid,
{
    if mid < to {
        lemma_digits_prefix(s, from, mid, to - 1);
    }
}

/// Whether a character is white space.
pub fn space(c: char) -> (r: bool)
    ensures
        r == is_space(c),
{
    let code = c as u32;
    (0x09 <= code && code <= 0x0d) || code == 0x20 || code == 0x85 || code == 0xa0 || code
        == 0x1680 || (0x2000 <= code && code <= 0x200a) || code == 0x2028 || code == 0x2029 || code
        == 0x202f || code == 0x205f || code == 0x3000
}

/// The characters of a text.
pub fn chars_of(text: &str) -> (r: Vec<char>)
    ensures
        r@ == text@,
{
    let count = text.unicode_len();
    let mut out: Vec<char> = Vec::with_capacity(count);
    let mut i: usize = 0;
    while i < count
        invariant
            count == text@.len(),
            i <= count,
            out@ == text@.take(i as int),
        decreases count - i,
    {
        out.push(text.get_char(i));
        proof {
            assert(text@.take(i + 1) =~= text@.take(i as int).push(text@[i as int]));
        }
        i += 1;
    }
    proof {
        assert(text@.take(count as int) =~= text@);
    }
    out
}

/// Computes [`first_solid`].
pub fn skip_spaces(s: &Vec<char>, from: usize, to: usize) -> (r: usize)
    requires
        from <= to <= s@.len(),
    ensures
        r == first_solid(s@, from as int, to as int),
        from <= r <= to,
        r < to ==> !is_space(s@[r as int]),
{
    let mut i: usize = from;
    while i < to && space(s[i])
        invariant
            from <= i <= to <= s@.len(),
            first_solid(s@, from as int, to as int) == first_solid(s@, i as int, to as int),
        decreases to - i,
    {
        i += 1;
    }
    i
}

/// Computes [`last_solid`].
pub fn drop_spaces(s: &Vec<char>, from: usize, to: usize) -> (r: usize)
    requires
        from <= to <= s@.len(),
    ensures
        r == last_solid(s@, from as int, to as int),
        from <= r <= to,
        r > from ==> !is_space(s@[r - 1]),
{
    let mut i: usize = to;
    while i > from && space(s[i - 1])
        invariant
            from <= i <= to <= s@.len(),
            last_solid(s@, from as int, to as int) == last_solid(s@, from as int, i as int),
        decreases i - from,
    {
        i -= 1;
    }
    i
}

/// The bounds of [`trimmed`]: where the text between `from` and `to`
/// begins and ends without the white space around it.
pub fn trim_range(s: &Vec<char>, from: usize, to: usize) -> (r: (usize, usize))
    requires
        from <= to <= s@.len(),
    ensures
        from <= r.0 <= r.1 <= to,
        r.0 == first_solid(s@, from as int, to as int),
        r.1 == last_solid(s@, r.0 as int, to as int),
        s@.subrange(r.0 as int, r.1 as int) == trimmed(s@, from as int, to as int),
{
    let start = skip_spaces(s, from, to);
    let end = drop_spaces(s, start, to);
    (start, end)
}

/// Computes [`number_in`].
pub fn read_number(s: &Vec<char>, from: usize, to: usize) -> (r: Option<usize>)
    requires
        from <= to <= s@.len(),
    ensures
        r == number_in(s@, from as int, to as int),
{
    let start = if from < to && s[from] == '+' {
        from + 1
    } else {
        from
    };
    if start >= to {
        return None;
    }
    let mut value: usize = 0;
    let mut i: usize = start;
    while i < to
        invariant
            start == (if from < to && s@[from as int] == '+' {
                from + 1
            } else {
                from as int
            }),
            start < to,
            start <= i <= to <= s@.len(),
            digits_value(s@, start as int, i as int) == Some(value as nat),
        decreases to - i,
    {
        let c = s[i];
        if !('0' <= c && c <= '9') {
            proof {
                if digits_value(s@, start as int, to as int) is Some {
                    lemma_digits_prefix(s@, start as int, i + 1, to as int);
                }
            }
            return None;
        }
        let digit = (c as u32 - '0' as u32) as usize;
        let next = match value.checked_mul(10) {
            Some(tens) => tens.checked_add(digit),
            None => None,
        };
        match next {
            Some(next) => {
                value = next;
            },
            None => {
                proof {
                    if digits_value(s@, start as int, to as int) is Some {
                        lemma_digits_prefix(s@, start as int, i + 1, to as int);
                    }
                }
                return None;
            },
        }
        i += 1;
    }
    Some(value)
}

/// The list of numbers a text stands for: see [`parsed_list`].
pub fn parse_usize_list(text: &str) -> (r: Result<Vec<usize>, String>)
    ensures
        match parsed_list(text@) {
            Some(list) => r matches Ok(v) && v@ == list,
            None => r is Err,
        },
{
    let all = chars_of(text);
    let start = skip_spaces(&all, 0, all.len());
    let end = drop_spaces(&all, start, all.len());
    if end - start < 2 || all[start] != '[' || all[end - 1] != ']' {
        let mut message = "Expected [d1, d2, ...], got: ".to_owned();
        message.append(text);
        return Err(message);
    }
    let mut inner: Vec<char> = Vec::with_capacity(end - start - 2);
    let mut k: usize = start + 1;
    while k < end - 1
        invariant
            start + 1 <= k <= end - 1,
            end <= all@.len(),
            inner@ == all@.subrange(start + 1, k as int),
        decreases end - 1 - k,
    {
        inner.push(all[k]);
        proof {
            assert(all@.subrange(start + 1, k + 1) =~= all@.subrange(start + 1, k as int).push(
                all@[k as int],
            ));
        }
        k += 1;
    }
    if skip_spaces(&inner, 0, inner.len()) == inner.len() {
        return Ok(Vec::new());
    }
    let mut out: Vec<usize> = Vec::new();
    let mut from: usize = 0;
    proof {
        assert(all@ == text@);
        assert(Seq::<usize>::empty() + list_from(inner@, 0).unwrap() =~= list_from(inner@, 0).unwrap());
    }
    loop
        invariant
            parsed_list(text@) == list_from(inner@, 0),
            from <= inner@.len(),
            match list_from(inner@, from as int) {
                Some(rest) => list_from(inner@, 0) == Some(out@ + rest),
                None => list_from(inner@, 0) is None,
            },
        decreases inner@.len() - from,
    {
        let mut comma: usize = from;
        while comma < inner.len() && inner[comma] != ','
            invariant
                from <= comma <= inner@.len(),
                next_comma(inner@, from as int) == next_comma(inner@, comma as int),
            decreases inner@.len() - comma,
        {
            comma += 1;
        }
        let first = skip_spaces(&inner, from, comma);
        let last = drop_spaces(&inner, first, comma);
        match read_number(&inner, first, last) {
            Some(n) => {
                let ghost before = out@;
                out.push(n);
                if comma >= inner.len() {
                    proof {
                        assert(out@ =~= before + seq![n]);
                    }
                    return Ok(out);
                }
                proof {
                    match list_from(inner@, comma + 1) {
                        Some(rest) => {
                            assert(out@ + rest =~= before + (seq![n] + rest));
                        },
                        None => {},
                    }
                }
                from = comma + 1;
            },
            None => {
                let mut message = "Invalid dimension in: ".to_owned();
                message.append(text);
                return Err(message);
            },
        }
    }
}

} // verus!
