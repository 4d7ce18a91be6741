//! Regular expressions, by the `regex` crate. What the crate computes is not
//! proved here: the items of this file say what the library takes from it on
//! trust, and give those results names that contracts can speak of.

use vstd::prelude::*;

verus! {

/// A compiled expression of the `regex` crate. Opaque to the verifier.
#[verifier::external_type_specification]
#[verifier::external_body]
pub struct ExRegex(regex::Regex);

/// What `Regex::new` makes of `pattern`: the compiled expression, or nothing
/// where the crate refuses the pattern.
pub uninterp spec fn compiled(pattern: Seq<char>) -> Option<regex::Regex>;

/// Whether `re` has a match anywhere in `haystack`, as `Regex::is_match`
/// tells.
pub uninterp spec fn has_match(re: regex::Regex, haystack: Seq<char>) -> bool;

/// What `Regex::replace_all` makes of a `haystack` in which `re` has a match.
pub uninterp spec fn rewritten(
    re: regex::Regex,
    haystack: Seq<char>,
    replacement: Seq<char>,
) -> Seq<char>;

/// What the group `group` holds in the first match of `re` in `haystack`, as
/// `Regex::captures` and `Captures::get` tell: nothing where there is no
/// match, no such group, or the group took no part in the match.
pub uninterp spec fn captured(re: regex::Regex, haystack: Seq<char>, group: nat) -> Option<
    Seq<char>,
>;

/// `haystack` with every match of `re` replaced. Without a match it is the
/// haystack itself.
pub open spec fn replaced(re: regex::Regex, haystack: Seq<char>, replacement: Seq<char>) -> Seq<
    char,
> {
    if has_match(re, haystack) {
        rewritten(re, haystack, replacement)
    } else {
        haystack
    }
}

/// Whether `places` tells, for each character of `short` in turn, where it
/// stands in `long`, going forward.
pub open spec fn keeps_order(places: Seq<int>, short: Seq<char>, long: Seq<char>) -> bool {
    &&& places.len() == short.len()
    &&& forall|i: int|
        0 <= i < places.len() ==> 0 <= #[trigger] places[i] < long.len() && short[i]
            == long[places[i]]
    &&& forall|i: int, j: int|
        0 <= i < j < places.len() ==> #[trigger] places[i] < #[trigger] places[j]
}

/// Whether `short` is what remains of `long` when some of its characters are
/// left out.
pub open spec fn remains_of(short: Seq<char>, long: Seq<char>) -> bool {
    exists|places: Seq<int>| keeps_order(places, short, long)
}

/// Whether `part` stands somewhere in `whole`, in one piece.
pub open spec fn part_of(part: Seq<char>, whole: Seq<char>) -> bool {
    exists|from: int, to: int|
        0 <= from <= to <= whole.len() && part == #[trigger] whole.subrange(from, to)
}

/// Compiles `pattern` with `Regex::new`. Trusted: the outcome depends on the
/// pattern alone, so it has the name [`compiled`].
#[verifier::external_body]
pub(crate) fn compile(pattern: &str) -> (made: Option<regex::Regex>)
    ensures
        made == compiled(pattern@),
{
    regex::Regex::new(pattern).ok()
}

/// Whether `re` has a match anywhere in `haystack`, by `Regex::is_match`.
/// Trusted: the answer depends on the two arguments alone.
#[verifier::external_body]
pub(crate) fn is_match(re: &regex::Regex, haystack: &str) -> (found: bool)
    ensures
        found == has_match(*re, haystack@),
{
    re.is_match(haystack)
}

/// Replaces every match of `re` in `haystack` with `Regex::replace_all`.
/// Trusted: the result depends on the three arguments alone; it is the
/// haystack unchanged where `re` has no match in it; and with an empty
/// replacement it is what remains of the haystack without the matches.
#[verifier::external_body]
pub(crate) fn replace_all(re: &regex::Regex, haystack: &str, replacement: &str) -> (out: String)
    ensures
        has_match(*re, haystack@) ==> out@ == rewritten(*re, haystack@, replacement@),
        !has_match(*re, haystack@) ==> out@ == haystack@,
        replacement@.len() == 0 ==> remains_of(out@, haystack@),
{
    re.replace_all(haystack, replacement).into_owned()
}

/// The text of one group in the first match of `re` in `haystack`, by
/// `Regex::captures`, `Captures::get` and `Match::as_str`. Trusted: the result
/// depends on the three arguments alone, and is a part of the haystack.
#[verifier::external_body]
pub(crate) fn capture<'h>(re: &regex::Regex, haystack: &'h str, group: usize) -> (found: Option<
    &'h str,
>)
    ensures
        found.deep_view() == captured(*re, haystack@, group as nat),
        found matches Some(part) ==> part_of(part@, haystack@),
{
    re.captures(haystack).and_then(|groups| groups.get(group)).map(|part| part.as_str())
}

/// What remains of what remains of a text remains of that text.
pub proof fn lemma_remains_of_remains(short: Seq<char>, middle: Seq<char>, long: Seq<char>)
    requires
        remains_of(short, middle),
        remains_of(middle, long),
    ensures
        remains_of(short, long),
{
    let first = choose|places: Seq<int>| keeps_order(places, short, middle);
    let second = choose|places: Seq<int>| keeps_order(places, middle, long);
    let both = Seq::new(short.len(), |i: int| second[first[i]]);
    assert(keeps_order(both, short, long));
}

} // verus!
