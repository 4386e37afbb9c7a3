//! Finding words in the text of a command.

use crate::dsl::split::{find_from, find_in, occurs_at, stands_at};
use crate::utils::parsing::{chars_of, first_solid, is_space, space, trim_range, trimmed};
use vstd::prelude::*;
use vstd::string::StrSliceExecFns;

verus! {

/// Whether a text begins with a word.
pub fn begins(text: &str, word: &str) -> (r: bool)
    ensures
        r == occurs_at(text@, word@, 0),
{
    let all = chars_of(text);
    let letters = chars_of(word);
    stands_at(&all, &letters, 0)
}

/// Whether a text holds a word somewhere.
pub fn holds(text: &str, word: &str) -> (r: bool)
    ensures
        r == (find_from(text@, word@, 0) is Some),
{
    let all = chars_of(text);
    let letters = chars_of(word);
    find_in(&all, &letters).is_some()
}

/// A text without the word it begins with, as often as it begins with
/// it.
pub open spec fn stripped(s: Seq<char>, word: Seq<char>) -> Seq<char>
    decreases s.len(),
{
    if word.len() > 0 && occurs_at(s, word, 0) {
        stripped(s.skip(word.len() as int), word)
    } else {
        s
    }
}

/// What follows a keyword: the text without the keyword it begins with,
/// as often as it begins with it, and without the white space around
/// what is left.
pub open spec fn after_keyword(s: Seq<char>, word: Seq<char>) -> Seq<char> {
    let rest = stripped(s, word);
    trimmed(rest, 0, rest.len() as int)
}

/// What follows a keyword: see [`after_keyword`].
pub fn rest_after<'a>(text: &'a str, word: &str) -> (r: &'a str)
    ensures
        r@ == after_keyword(text@, word@),
{
    let all = chars_of(text);
    let letters = chars_of(word);
    let n = all.len();
    let mut from: usize = 0;
    proof {
        assert(text@.skip(0) =~= text@);
    }
    if letters.len() > 0 {
        while stands_at(&all, &letters, from)
            invariant
                all@ == text@,
                letters@ == word@,
                letters@.len() > 0,
                n == all@.len(),
                from <= n,
                stripped(text@, word@) == stripped(text@.skip(from as int), word@),
            decreases n - from,
        {
            proof {
                let here = text@.skip(from as int);
                assert(here.subrange(0, word@.len() as int) =~= text@.subrange(
                    from as int,
                    from + word@.len(),
                ));
                assert(occurs_at(here, word@, 0));
                assert(here.skip(word@.len() as int) =~= text@.skip(from + word@.len()));
            }
            from = from + letters.len();
        }
        proof {
            let here = text@.skip(from as int);
            if occurs_at(here, word@, 0) {
                assert(here.subrange(0, word@.len() as int) =~= text@.subrange(
                    from as int,
                    from + word@.len(),
                ));
            }
        }
    }
    let rest = text.substring_char(from, n);
    proof {
        assert(rest@ =~= text@.skip(from as int));
    }
    let rest_chars = chars_of(rest);
    let (a, b) = trim_range(&rest_chars, 0, rest_chars.len());
    rest.substring_char(a, b)
}

/// A text taken apart at the first place of a separator: what stands
/// before it and what stands after it. `None` when the separator does
/// not stand in the text.
pub open spec fn parted(s: Seq<char>, separator: Seq<char>) -> Option<(Seq<char>, Seq<char>)> {
    match find_from(s, separator, 0) {
        Some(at) => Some((s.take(at), s.skip(at + separator.len()))),
        None => None,
    }
}

/// A text taken apart at the first place of a separator: see [`parted`].
pub fn split_once<'a>(text: &'a str, separator: &str) -> (r: Option<(&'a str, &'a str)>)
    ensures
        match parted(text@, separator@) {
            Some((before, after)) => r matches Some((b, a)) && b@ == before && a@ == after,
            None => r is None,
        },
{
    let all = chars_of(text);
    let letters = chars_of(separator);
    let n = all.len();
    match find_in(&all, &letters) {
        Some(at) => {
            let before = text.substring_char(0, at);
            let after = text.substring_char(at + letters.len(), n);
            proof {
                assert(before@ =~= text@.take(at as int));
                assert(after@ =~= text@.skip(at + separator@.len()));
            }
            Some((before, after))
        },
        None => None,
    }
}

/// A text without the white space around it.
pub open spec fn clean(s: Seq<char>) -> Seq<char> {
    trimmed(s, 0, s.len() as int)
}

/// A text without the white space around it: see [`clean`].
pub fn trim(text: &str) -> (r: &str)
    ensures
        r@ == clean(text@),
{
    let all = chars_of(text);
    let (a, b) = trim_range(&all, 0, all.len());
    text.substring_char(a, b)
}

/// The first position at or after `from` that holds white space, or the
/// length of the text when none does.
pub open spec fn word_end(s: Seq<char>, from: int) -> int
    decreases s.len() - from,
{
    if 0 <= from < s.len() && !is_space(s[from]) {
        word_end(s, from + 1)
    } else {
        from
    }
}

/// The words of a text from `from` on: the pieces between runs of white
/// space.
pub open spec fn words_from(s: Seq<char>, from: int) -> Seq<Seq<char>>
    decreases s.len() - from,
{
    let start = first_solid(s, from, s.len() as int);
    let end = word_end(s, start);
    // The last three tests never hold; with them the recursion plainly ends.
    if start >= s.len() || end <= start || start < from || end > s.len() {
        Seq::empty()
    } else {
        seq![s.subrange(start, end)] + words_from(s, end)
    }
}

/// The words of a text.
pub open spec fn words(s: Seq<char>) -> Seq<Seq<char>> {
    words_from(s, 0)
}

/// The words of a text: see [`words`].
pub fn split_words(text: &str) -> (r: Vec<&str>)
    ensures
        r@.map_values(|w: &str| w@) == words(text@),
{
    let all = chars_of(text);
    let n = all.len();
    let mut out: Vec<&str> = Vec::new();
    let mut from: usize = 0;
    proof {
        assert(out@.map_values(|w: &str| w@) =~= Seq::<Seq<char>>::empty());
        assert(Seq::<Seq<char>>::empty() + words_from(all@, 0) =~= words_from(all@, 0));
    }
    loop
        invariant
            all@ == text@,
            n == all@.len(),
            from <= n,
            words(text@) == out@.map_values(|w: &str| w@) + words_from(all@, from as int),
        decreases n - from,
    {
        let start = crate::utils::parsing::skip_spaces(&all, from, n);
        if start >= n {
            proof {
                assert(out@.map_values(|w: &str| w@) + Seq::<Seq<char>>::empty()
                    =~= out@.map_values(|w: &str| w@));
            }
            return out;
        }
        let mut end: usize = start;
        while end < n && !space(all[end])
            invariant
                start <= end <= n,
                n == all@.len(),
                word_end(all@, start as int) == word_end(all@, end as int),
            decreases n - end,
        {
            end += 1;
        }
        proof {
            assert(!is_space(all@[start as int]));
            assert(word_end(all@, start as int) == word_end(all@, start + 1));
        }
        let word = text.substring_char(start, end);
        let ghost before = out@.map_values(|w: &str| w@);
        out.push(word);
        proof {
            assert(out@.map_values(|w: &str| w@) =~= before.push(word@));
            assert(before.push(word@) + words_from(all@, end as int) =~= before + (seq![word@]
                + words_from(all@, end as int)));
        }
        from = end;
    }
}

} // verus!
