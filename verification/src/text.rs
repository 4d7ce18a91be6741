//! Text as a sequence of characters: white space, trimming, and comparing one
//! text with a part of another.

use vstd::prelude::*;
use vstd::std_specs::iter::IteratorSpec;

verus! {

/// The characters that Unicode counts as white space (`White_Space`).
pub open spec fn white_space(c: char) -> bool {
    ||| '\u{9}' <= c <= '\u{d}'
    ||| c == ' '
    ||| c == '\u{85}'
    ||| c == '\u{a0}'
    ||| c == '\u{1680}'
    ||| '\u{2000}' <= c <= '\u{200a}'
    ||| c == '\u{2028}'
    ||| c == '\u{2029}'
    ||| c == '\u{202f}'
    ||| c == '\u{205f}'
    ||| c == '\u{3000}'
}

/// `s` without the white space it begins with and the white space it ends
/// with.
pub open spec fn trimmed(s: Seq<char>) -> Seq<char>
    decreases s.len(),
{
    if s.len() == 0 {
        s
    } else if white_space(s.first()) {
        trimmed(s.drop_first())
    } else if white_space(s.last()) {
        trimmed(s.drop_last())
    } else {
        s
    }
}

/// Whether `c` is white space.
pub fn is_white_space(c: char) -> (b: bool)
    ensures
        b == white_space(c),
{
    ('\u{9}' <= c && c <= '\u{d}') || c == ' ' || c == '\u{85}' || c == '\u{a0}' || c == '\u{1680}'
        || ('\u{2000}' <= c && c <= '\u{200a}') || c == '\u{2028}' || c == '\u{2029}' || c
        == '\u{202f}' || c == '\u{205f}' || c == '\u{3000}'
}

/// Whether `part` stands in `s` from the character at index `from` on.
pub fn occurs_at(s: &str, from: usize, part: &str) -> (b: bool)
    ensures
        b == (from <= s@.len() && part@.is_prefix_of(s@.skip(from as int))),
{
    let mut rest = s.chars();
    let mut k: usize = 0;
    while k < from
        invariant
            k <= from,
            k <= s@.len(),
            rest.obeys_prophetic_iter_laws(),
            rest.decrease() is Some,
            rest.remaining() == s@.skip(k as int),
        decreases from - k,
    {
        match rest.next() {
            Some(_) => {
                k = k + 1;
            },
            None => {
                return false;
            },
        }
    }
    let mut wanted = part.chars();
    let ghost mut j: int = 0;
    loop
        invariant
            0 <= j <= part@.len(),
            from + j <= s@.len(),
            rest.obeys_prophetic_iter_laws(),
            rest.decrease() is Some,
            wanted.obeys_prophetic_iter_laws(),
            wanted.decrease() is Some,
            rest.remaining() == s@.skip(from + j),
            wanted.remaining() == part@.skip(j),
            part@.take(j) == s@.skip(from as int).take(j),
        decreases wanted.decrease()->0,
    {
        match wanted.next() {
            None => {
                return true;
            },
            Some(p) => match rest.next() {
                None => {
                    return false;
                },
                Some(c) => {
                    if c != p {
                        return false;
                    }
                    proof {
                        j = j + 1;
                    }
                },
            },
        }
    }
}

/// Whether `s` begins with `prefix`.
pub fn starts_with(s: &str, prefix: &str) -> (b: bool)
    ensures
        b == prefix@.is_prefix_of(s@),
{
    occurs_at(s, 0, prefix)
}

/// Whether `s` ends with `suffix`.
pub fn ends_with(s: &str, suffix: &str) -> (b: bool)
    ensures
        b == suffix@.is_suffix_of(s@),
{
    let n = s.unicode_len();
    let m = suffix.unicode_len();
    if m > n {
        return false;
    }
    occurs_at(s, n - m, suffix)
}

/// If all of `s` before `a` and from `b` on is white space, and what lies
/// between neither begins nor ends with white space, then that is `s` trimmed.
pub proof fn lemma_trimmed_between(s: Seq<char>, a: int, b: int)
    requires
        0 <= a <= b <= s.len(),
        forall|i: int| 0 <= i < a ==> white_space(#[trigger] s[i]),
        forall|i: int| b <= i < s.len() ==> white_space(#[trigger] s[i]),
        a < b ==> !white_space(s[a]) && !white_space(s[b - 1]),
    ensures
        trimmed(s) == s.subrange(a, b),
    decreases s.len(),
{
    if s.len() == 0 {
    } else if white_space(s.first()) {
        if a == 0 {
            lemma_trimmed_between(s.drop_first(), 0, 0);
        } else {
            lemma_trimmed_between(s.drop_first(), a - 1, b - 1);
        }
    } else if white_space(s.last()) {
        lemma_trimmed_between(s.drop_last(), 0, b);
    }
}

/// Where `s` trimmed begins and ends in `s`, counted in characters.
pub fn trim_bounds(s: &str) -> (r: (usize, usize))
    ensures
        r.0 <= r.1 <= s@.len(),
        trimmed(s@) == s@.subrange(r.0 as int, r.1 as int),
{
    let n = s.unicode_len();
    let mut a: usize = 0;
    let mut b: usize = 0;
    let mut i: usize = 0;
    for c in it: s.chars()
        invariant
            it.seq() == s@,
            n == s@.len(),
            i == it.index(),
            a <= b <= i,
            forall|k: int| 0 <= k < a ==> white_space(#[trigger] s@[k]),
            forall|k: int| b <= k < i ==> white_space(#[trigger] s@[k]),
            a < b ==> !white_space(s@[a as int]) && !white_space(s@[b - 1]),
            a == b ==> a == i,
    {
        if is_white_space(c) {
            if a == b {
                a = i + 1;
                b = i + 1;
            }
        } else {
            if a == b {
                a = i;
            }
            b = i + 1;
        }
        i = i + 1;
    }
    proof {
        lemma_trimmed_between(s@, a as int, b as int);
    }
    (a, b)
}

/// Whether `from` and `to` bound a part of `s`, counted in characters, and
/// that part is `wanted`.
pub fn spans(s: &str, from: usize, to: usize, wanted: &str) -> (b: bool)
    ensures
        b == (from <= to <= s@.len() && s@.subrange(from as int, to as int) == wanted@),
{
    if to < from {
        return false;
    }
    let m = wanted.unicode_len();
    if to - from != m {
        return false;
    }
    assert(to <= s@.len() ==> s@.skip(from as int).subrange(0, m as int) == s@.subrange(
        from as int,
        to as int,
    ));
    occurs_at(s, from, wanted)
}

/// How many characters of `s` stand before its first line feed.
pub open spec fn line_end(s: Seq<char>) -> nat
    decreases s.len(),
{
    if s.len() == 0 || s[0] == '\n' {
        0
    } else {
        1 + line_end(s.drop_first())
    }
}

/// `line` without the carriage return it may end with.
pub open spec fn without_carriage_return(line: Seq<char>) -> Seq<char> {
    if line.len() > 0 && line.last() == '\r' {
        line.drop_last()
    } else {
        line
    }
}

/// The lines of `s`. A line ends at a line feed, or at a carriage return
/// followed by one; neither belongs to the line. What follows the last line
/// feed is a line too, unless it is empty, and keeps a carriage return it
/// ends with.
pub open spec fn lines_of(s: Seq<char>) -> Seq<Seq<char>>
    decreases s.len(),
{
    if s.len() == 0 {
        Seq::empty()
    } else {
        let n = line_end(s) as int;
        if n >= s.len() {
            seq![s]
        } else {
            seq![without_carriage_return(s.take(n))] + lines_of(s.skip(n + 1))
        }
    }
}

/// A text without line feed has no line end before its own end.
pub proof fn lemma_line_end_without_line_feed(s: Seq<char>)
    requires
        forall|i: int| 0 <= i < s.len() ==> #[trigger] s[i] != '\n',
    ensures
        line_end(s) == s.len(),
    decreases s.len(),
{
    if s.len() > 0 {
        lemma_line_end_without_line_feed(s.drop_first());
    }
}

/// A text that is not empty and holds no line feed is one line: itself.
pub proof fn lemma_one_line(s: Seq<char>)
    requires
        s.len() > 0,
        forall|i: int| 0 <= i < s.len() ==> #[trigger] s[i] != '\n',
    ensures
        lines_of(s) == seq![s],
{
    lemma_line_end_without_line_feed(s);
}

/// The lines of `s`, by `str::lines` of the standard library. Trusted: the
/// lines are those of [`lines_of`], in their order, as the documentation of
/// `str::lines` describes them.
#[verifier::external_body]
pub(crate) fn split_lines<'a>(s: &'a str) -> (lines: Vec<&'a str>)
    ensures
        lines.deep_view() == lines_of(s@),
{
    s.lines().collect()
}

/// Whether `c` is a letter or a digit of ASCII.
pub open spec fn ascii_alphanumeric(c: char) -> bool {
    '0' <= c <= '9' || 'A' <= c <= 'Z' || 'a' <= c <= 'z'
}

/// Whether `c`, a character beyond ASCII, is a letter or a digit of some
/// script, as `char::is_alphanumeric` of the standard library tells.
pub uninterp spec fn wide_alphanumeric(c: char) -> bool;

/// Whether `c` is a letter or a digit of any script.
pub open spec fn alphanumeric(c: char) -> bool {
    if c <= '\u{7f}' {
        ascii_alphanumeric(c)
    } else {
        wide_alphanumeric(c)
    }
}

/// `char::is_alphanumeric` of the standard library. Trusted: within ASCII it
/// holds of the letters and the digits and of nothing else, as the Unicode
/// tables that its documentation names have it; beyond ASCII the answer
/// depends on the character alone.
pub assume_specification[ char::is_alphanumeric ](c: char) -> (b: bool)
    ensures
        c <= '\u{7f}' ==> b == ascii_alphanumeric(c),
        c > '\u{7f}' ==> b == wide_alphanumeric(c),
;

} // verus!
