//! Taking a command apart at commas, keywords and operators.

use crate::engine::BinaryOp;
use crate::utils::parsing::{chars_of, trim_range, trimmed};
use vstd::prelude::*;
use vstd::string::StrSliceExecFns;

verus! {

/// The texts of a list of strings.
pub open spec fn texts(list: Seq<String>) -> Seq<Seq<char>> {
    list.map_values(|t: String| t@)
}

/// What a character adds to the depth of brackets: round and square
/// brackets count alike.
pub open spec fn depth_change(c: char) -> int {
    if c == '(' || c == '[' {
        1
    } else if c == ')' || c == ']' {
        -1
    } else {
        0
    }
}

/// The depth of brackets before a position: brackets opened less
/// brackets closed. It is negative after a bracket that closes nothing.
pub open spec fn depth_before(s: Seq<char>, i: int) -> int
    decreases i,
{
    if i <= 0 {
        0
    } else {
        depth_before(s, i - 1) + depth_change(s[i - 1])
    }
}

/// Whether a position holds a comma outside every bracket.
pub open spec fn is_separator(s: Seq<char>, i: int) -> bool {
    s[i] == ',' && depth_before(s, i) == 0
}

/// The first separator at or after `from`, or the length of the text
/// when there is none.
pub open spec fn next_separator(s: Seq<char>, from: int) -> int
    decreases s.len() - from,
{
    if from < s.len() && !is_separator(s, from) {
        next_separator(s, from + 1)
    } else {
        from
    }
}

/// The arguments written from `from` on: the pieces between separators,
/// each without the white space around it. A piece before a separator
/// counts even when it is empty; the piece after the last separator
/// counts only when it is not.
pub open spec fn arguments_from(s: Seq<char>, from: int) -> Seq<Seq<char>>
    decreases s.len() - from,
{
    let end = next_separator(s, from);
    let piece = trimmed(s, from, end);
    // The second test never holds; with it the recursion plainly ends.
    if end >= s.len() || end < from {
        if piece.len() == 0 {
            Seq::empty()
        } else {
            seq![piece]
        }
    } else {
        seq![piece] + arguments_from(s, end + 1)
    }
}

/// The arguments of a list written with commas, such as `a, f(b, c), [d, e]`.
pub open spec fn arguments(s: Seq<char>) -> Seq<Seq<char>> {
    arguments_from(s, 0)
}

/// The depth before a position is at most the position, either way.
pub proof fn lemma_depth_bounds(s: Seq<char>, i: int)
    requires
        0 <= i,
    ensures
        -i <= depth_before(s, i) <= i,
    decreases i,
{
    if i > 0 {
        lemma_depth_bounds(s, i - 1);
    }
}

/// Where the next separator is.
pub proof fn lemma_next_separator(s: Seq<char>, from: int)
    requires
        0 <= from <= s.len(),
    ensures
        from <= next_separator(s, from) <= s.len(),
        next_separator(s, from) < s.len() ==> is_separator(s, next_separator(s, from)),
    decreases s.len() - from,
{
    if from < s.len() && !is_separator(s, from) {
        lemma_next_separator(s, from + 1);
    }
}

/// The arguments of a list written with commas: see [`arguments`].
pub fn split_args(text: &str) -> (r: Vec<String>)
    ensures
        texts(r@) == arguments(text@),
{
    let all = chars_of(text);
    let n = all.len();
    let mut out: Vec<String> = Vec::new();
    let mut start: usize = 0;
    let mut depth: i128 = 0;
    let mut i: usize = 0;
    proof {
        assert(texts(out@) =~= Seq::<Seq<char>>::empty());
        assert(Seq::<Seq<char>>::empty() + arguments_from(all@, 0) =~= arguments_from(all@, 0));
    }
    while i < n
        invariant
            all@ == text@,
            n == all@.len(),
            start <= i <= n,
            depth == depth_before(all@, i as int),
            next_separator(all@, start as int) == next_separator(all@, i as int),
            arguments(all@) == texts(out@) + arguments_from(all@, start as int),
        decreases n - i,
    {
        let c = all[i];
        proof {
            lemma_depth_bounds(all@, i as int);
            assert(depth_before(all@, i + 1) == depth_before(all@, i as int) + depth_change(c));
        }
        if c == '(' || c == '[' {
            depth = depth + 1;
        } else if c == ')' || c == ']' {
            depth = depth - 1;
        } else if c == ',' && depth == 0 {
            let (a, b) = trim_range(&all, start, i);
            let piece = text.substring_char(a, b).to_owned();
            let ghost before = texts(out@);
            out.push(piece);
            proof {
                assert(is_separator(all@, i as int));
                assert(next_separator(all@, i as int) == i);
                assert(texts(out@) =~= before.push(piece@));
                assert(piece@ == trimmed(all@, start as int, i as int));
                assert(before.push(piece@) + arguments_from(all@, i + 1) =~= before + (seq![
                    piece@,
                ] + arguments_from(all@, i + 1)));
            }
            start = i + 1;
        }
        i += 1;
    }
    let (a, b) = trim_range(&all, start, n);
    if a < b {
        let piece = text.substring_char(a, b).to_owned();
        let ghost before = texts(out@);
        out.push(piece);
        proof {
            assert(texts(out@) =~= before.push(piece@));
            assert(before.push(piece@) =~= before + seq![piece@]);
        }
    } else {
        proof {
            assert(texts(out@) + Seq::<Seq<char>>::empty() =~= texts(out@));
        }
    }
    out
}

/// What a character adds to the depth of square brackets.
pub open spec fn square_change(c: char) -> int {
    if c == '[' {
        1
    } else if c == ']' {
        -1
    } else {
        0
    }
}

/// The depth of square brackets before a position.
pub open spec fn level_before(s: Seq<char>, i: int) -> int
    decreases i,
{
    if i <= 0 {
        0
    } else {
        level_before(s, i - 1) + square_change(s[i - 1])
    }
}

/// The operation an operator sign stands for.
pub open spec fn sign_operation(c: char) -> Option<BinaryOp> {
    if c == '+' {
        Some(BinaryOp::Add)
    } else if c == '-' {
        Some(BinaryOp::Subtract)
    } else if c == '*' {
        Some(BinaryOp::Multiply)
    } else if c == '/' {
        Some(BinaryOp::Divide)
    } else {
        None
    }
}

/// Whether a position holds an operator sign outside square brackets.
pub open spec fn is_infix(s: Seq<char>, i: int) -> bool {
    level_before(s, i) == 0 && sign_operation(s[i]) is Some
}

/// The first operator sign outside square brackets at or after `from`,
/// or the length of the text when there is none.
pub open spec fn next_infix(s: Seq<char>, from: int) -> int
    decreases s.len() - from,
{
    if from < s.len() && !is_infix(s, from) {
        next_infix(s, from + 1)
    } else {
        from
    }
}

/// An expression with an operator between two operands, taken apart at
/// the first operator sign outside square brackets: the operand before
/// the sign, the operation, and the operand after it, the operands
/// without the white space around them. `None` when there is no such sign.
pub open spec fn infix_parts(s: Seq<char>) -> Option<(Seq<char>, BinaryOp, Seq<char>)> {
    let at = next_infix(s, 0);
    if 0 <= at < s.len() {
        Some(
            (
                trimmed(s, 0, at),
                sign_operation(s[at]).unwrap(),
                trimmed(s, at + 1, s.len() as int),
            ),
        )
    } else {
        None
    }
}

/// The depth of square brackets before a position is at most the
/// position, either way.
pub proof fn lemma_level_bounds(s: Seq<char>, i: int)
    requires
        0 <= i,
    ensures
        -i <= level_before(s, i) <= i,
    decreases i,
{
    if i > 0 {
        lemma_level_bounds(s, i - 1);
    }
}

/// Computes [`sign_operation`].
pub fn operation_of_sign(c: char) -> (r: Option<BinaryOp>)
    ensures
        r == sign_operation(c),
{
    if c == '+' {
        Some(BinaryOp::Add)
    } else if c == '-' {
        Some(BinaryOp::Subtract)
    } else if c == '*' {
        Some(BinaryOp::Multiply)
    } else if c == '/' {
        Some(BinaryOp::Divide)
    } else {
        None
    }
}

/// Takes an expression apart at its operator: see [`infix_parts`].
pub fn parse_infix_op(expr: &str) -> (r: Option<(&str, BinaryOp, &str)>)
    ensures
        match infix_parts(expr@) {
            Some((left, op, right)) => r matches Some((l, o, rt)) && l@ == left && o == op && rt@
                == right,
            None => r is None,
        },
{
    let all = chars_of(expr);
    let n = all.len();
    let mut level: i128 = 0;
    let mut i: usize = 0;
    while i < n
        invariant
            all@ == expr@,
            n == all@.len(),
            i <= n,
            level == level_before(all@, i as int),
            next_infix(all@, 0) == next_infix(all@, i as int),
        decreases n - i,
    {
        let c = all[i];
        proof {
            lemma_level_bounds(all@, i as int);
            assert(level_before(all@, i + 1) == level_before(all@, i as int) + square_change(c));
        }
        if c == '[' {
            level = level + 1;
        } else if c == ']' {
            level = level - 1;
        } else if level == 0 {
            match operation_of_sign(c) {
                Some(op) => {
                    let (a, b) = trim_range(&all, 0, i);
                    let (x, y) = trim_range(&all, i + 1, n);
                    return Some((expr.substring_char(a, b), op, expr.substring_char(x, y)));
                },
                None => {},
            }
        }
        i += 1;
    }
    None
}

/// Whether a pattern stands in a text at a position.
pub open spec fn occurs_at(text: Seq<char>, pattern: Seq<char>, i: int) -> bool {
    0 <= i && i + pattern.len() <= text.len() && text.subrange(i, i + pattern.len()) == pattern
}

/// The first position at or after `from` at which a pattern stands in a
/// text.
pub open spec fn find_from(text: Seq<char>, pattern: Seq<char>, from: int) -> Option<int>
    decreases text.len() - from,
{
    if from < 0 || from + pattern.len() > text.len() {
        None
    } else if occurs_at(text, pattern, from) {
        Some(from)
    } else if from < text.len() {
        find_from(text, pattern, from + 1)
    } else {
        None
    }
}

/// Where a pattern is found, it stands.
pub proof fn lemma_find_from(text: Seq<char>, pattern: Seq<char>, from: int)
    ensures
        find_from(text, pattern, from) matches Some(i) ==> from <= i && occurs_at(text, pattern, i),
    decreases text.len() - from,
{
    if !(from < 0 || from + pattern.len() > text.len()) && !occurs_at(text, pattern, from) && from
        < text.len() {
        lemma_find_from(text, pattern, from + 1);
    }
}

/// Where a keyword begins the next clause of a text: the first place at
/// which the keyword stands, if that place is not the start of the text
/// and a blank stands before it. Later places of the keyword do not
/// count.
pub open spec fn keyword_start(text: Seq<char>, keyword: Seq<char>) -> Option<int> {
    match find_from(text, keyword, 0) {
        Some(i) => if i > 0 && text[i - 1] == ' ' {
            Some(i)
        } else {
            None
        },
        None => None,
    }
}

/// The least [`keyword_start`] among the first `n` keywords.
pub open spec fn clause_end(text: Seq<char>, keywords: Seq<Seq<char>>, n: int) -> Option<int>
    decreases n,
{
    if n <= 0 {
        None
    } else {
        let rest = clause_end(text, keywords, n - 1);
        match keyword_start(text, keywords[n - 1]) {
            Some(i) => if rest is None || i < rest.unwrap() {
                Some(i)
            } else {
                rest
            },
            None => rest,
        }
    }
}

/// A text that begins with a keyword of the given length, taken apart
/// into the clause of that keyword and what follows it. The clause is
/// the text after the keyword up to the place where the next keyword
/// begins, without the white space around it; what follows begins with
/// that next keyword and is empty when there is none.
pub open spec fn clause_parts(s: Seq<char>, keyword_len: int, keywords: Seq<Seq<char>>) -> (
    Seq<char>,
    Seq<char>,
) {
    let rest = s.skip(keyword_len);
    match clause_end(rest, keywords, keywords.len() as int) {
        Some(i) => (trimmed(rest, 0, i), rest.skip(i)),
        None => (trimmed(rest, 0, rest.len() as int), Seq::empty()),
    }
}

/// Whether a pattern stands in a text at a position: see [`occurs_at`].
pub fn stands_at(text: &Vec<char>, pattern: &Vec<char>, i: usize) -> (r: bool)
    ensures
        r == occurs_at(text@, pattern@, i as int),
{
    if pattern.len() > text.len() || i > text.len() - pattern.len() {
        return false;
    }
    let mut k: usize = 0;
    while k < pattern.len()
        invariant
            i + pattern@.len() <= text@.len() <= usize::MAX,
            k <= pattern@.len(),
            text@.subrange(i as int, i + k) == pattern@.take(k as int),
        decreases pattern@.len() - k,
    {
        if text[i + k] != pattern[k] {
            proof {
                if text@.subrange(i as int, i + pattern@.len()) == pattern@ {
                    assert(text@.subrange(i as int, i + pattern@.len())[k as int] == pattern@[k as int]);
                }
            }
            return false;
        }
        proof {
            assert(text@.subrange(i as int, i + k + 1) =~= text@.subrange(i as int, i + k).push(
                text@[i + k],
            ));
            assert(pattern@.take(k + 1) =~= pattern@.take(k as int).push(pattern@[k as int]));
        }
        k += 1;
    }
    proof {
        assert(pattern@.take(pattern@.len() as int) =~= pattern@);
    }
    true
}

/// The first position at which a pattern stands in a text: see
/// [`find_from`].
pub fn find_in(text: &Vec<char>, pattern: &Vec<char>) -> (r: Option<usize>)
    ensures
        r matches Some(i) ==> find_from(text@, pattern@, 0) == Some(i as int) && i + pattern@.len()
            <= text@.len(),
        r is None ==> find_from(text@, pattern@, 0) is None,
{
    let mut i: usize = 0;
    while i < text.len()
        invariant
            i <= text@.len(),
            find_from(text@, pattern@, 0) == find_from(text@, pattern@, i as int),
        decreases text@.len() - i,
    {
        if stands_at(text, pattern, i) {
            return Some(i);
        }
        i += 1;
    }
    if stands_at(text, pattern, i) {
        Some(i)
    } else {
        None
    }
}

/// Takes a text that begins with a keyword apart into the clause of that
/// keyword and what follows: see [`clause_parts`]. The text must be at
/// least as long as the keyword.
pub fn split_clause<'a>(s: &'a str, current_kw: &str, all_kws: &[&str]) -> (r: (&'a str, &'a str))
    requires
        current_kw@.len() <= s@.len(),
    ensures
        (r.0@, r.1@) == clause_parts(
            s@,
            current_kw@.len() as int,
            all_kws@.map_values(|k: &str| k@),
        ),
{
    let ghost keywords = all_kws@.map_values(|k: &str| k@);
    let skipped = current_kw.unicode_len();
    let total = s.unicode_len();
    let rest_text = s.substring_char(skipped, total);
    let rest = chars_of(rest_text);
    proof {
        assert(rest@ =~= s@.skip(skipped as int));
    }
    let mut best: Option<usize> = None;
    let mut k: usize = 0;
    while k < all_kws.len()
        invariant
            k <= all_kws@.len(),
            keywords == all_kws@.map_values(|k: &str| k@),
            rest@ == s@.skip(skipped as int),
            best matches Some(b) ==> clause_end(rest@, keywords, k as int) == Some(b as int) && 0
                < b <= rest@.len(),
            best is None ==> clause_end(rest@, keywords, k as int) is None,
        decreases all_kws@.len() - k,
    {
        let keyword = chars_of(all_kws[k]);
        proof {
            assert(keywords[k as int] == keyword@);
        }
        match find_in(&rest, &keyword) {
            Some(i) => {
                if i > 0 && rest[i - 1] == ' ' {
                    let better = match best {
                        Some(b) => i < b,
                        None => true,
                    };
                    if better {
                        best = Some(i);
                    }
                }
            },
            None => {},
        }
        k += 1;
    }
    match best {
        Some(i) => {
            let (a, b) = trim_range(&rest, 0, i);
            proof {
                assert(rest@.skip(i as int) =~= rest_text@.subrange(i as int, rest@.len() as int));
            }
            (rest_text.substring_char(a, b), rest_text.substring_char(i, rest.len()))
        },
        None => {
            let (a, b) = trim_range(&rest, 0, rest.len());
            proof {
                assert(rest_text@.subrange(0, 0) =~= Seq::<char>::empty());
            }
            (rest_text.substring_char(a, b), rest_text.substring_char(0, 0))
        },
    }
}

} // verus!
