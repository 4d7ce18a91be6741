//! Finding the first link of a filtered text.

use crate::pattern::{capture, captured, compile, compiled, part_of};
use crate::text::{alphanumeric, ascii_alphanumeric, lemma_one_line, lines_of, split_lines};
use vstd::prelude::*;

verus! {

/// A link: `[[`, a target without `|`, then perhaps `|` and a label, then
/// `]]`. The target is the first group.
pub const LINK: &'static str = r"\[\[([^|]+?)(\|.+)?\]\]";

/// Whether `line` begins a paragraph of prose: with a letter, a digit or an
/// apostrophe.
pub open spec fn starts_paragraph(line: Seq<char>) -> bool {
    line.len() > 0 && (alphanumeric(line[0]) || line[0] == '\'')
}

/// The target of the first link in `line`, wherever the line begins.
pub open spec fn link_in(line: Seq<char>) -> Option<Seq<char>> {
    captured(compiled(LINK@)->0, line, 1)
}

/// The target that `line` offers: that of its first link, if the line
/// begins a paragraph.
pub open spec fn candidate(line: Seq<char>) -> Option<Seq<char>> {
    if starts_paragraph(line) {
        link_in(line)
    } else {
        None
    }
}

/// The first target that any of `lines` offers.
pub open spec fn first_candidate(lines: Seq<Seq<char>>) -> Option<Seq<char>>
    decreases lines.len(),
{
    if lines.len() == 0 {
        None
    } else if candidate(lines.first()) is Some {
        candidate(lines.first())
    } else {
        first_candidate(lines.drop_first())
    }
}

/// The first link target of `text`.
pub open spec fn first_link(text: Seq<char>) -> Option<Seq<char>> {
    first_candidate(lines_of(text))
}

/// Whether `line` begins a paragraph of prose.
pub fn begins_paragraph(line: &str) -> (b: bool)
    ensures
        b == starts_paragraph(line@),
{
    let mut chars = line.chars();
    match chars.next() {
        Some(c) => c.is_alphanumeric() || c == '\'',
        None => false,
    }
}

/// The link pattern, compiled once.
pub struct LinkExtractor {
    expr: regex::Regex,
}

impl LinkExtractor {
    #[verifier::type_invariant]
    spec fn holds_the_pattern(self) -> bool {
        compiled(LINK@) == Some(self.expr)
    }

    /// Compiles the link pattern. Fails where the `regex` crate refuses it.
    pub fn new() -> (made: Option<LinkExtractor>)
        ensures
            made is Some <==> compiled(LINK@) is Some,
    {
        match compile(LINK) {
            Some(expr) => Some(LinkExtractor { expr }),
            None => None,
        }
    }

    /// The target of the first link in `line`, wherever the line begins. It
    /// is a part of the line.
    pub fn target_in<'a>(&self, line: &'a str) -> (target: Option<&'a str>)
        ensures
            target.deep_view() == link_in(line@),
            target matches Some(part) ==> part_of(part@, line@),
    {
        proof {
            use_type_invariant(self);
        }
        capture(&self.expr, line, 1)
    }

    /// The first link target of `text`: that of the first link in the first
    /// line that begins a paragraph and holds a link. It is a part of that
    /// line.
    pub fn extract<'a>(&self, text: &'a str) -> (link: Option<&'a str>)
        ensures
            link.deep_view() == first_link(text@),
            link matches Some(target) ==> exists|i: int|
                0 <= i < lines_of(text@).len() && starts_paragraph(
                    #[trigger] lines_of(text@)[i],
                ) && part_of(target@, lines_of(text@)[i]),
    {
        let lines = split_lines(text);
        let mut i: usize = 0;
        assert(lines_of(text@).skip(0) == lines_of(text@));
        while i < lines.len()
            invariant
                i <= lines.len(),
                lines.deep_view() == lines_of(text@),
                first_link(text@) == first_candidate(lines_of(text@).skip(i as int)),
            decreases lines.len() - i,
        {
            assert(lines_of(text@).skip(i as int).drop_first() == lines_of(text@).skip(i + 1));
            let line = lines[i];
            if begins_paragraph(line) {
                if let Some(target) = self.target_in(line) {
                    return Some(target);
                }
            }
            i = i + 1;
        }
        None
    }
}

/// Where no line offers a target, there is no link.
pub proof fn lemma_no_offer(lines: Seq<Seq<char>>)
    requires
        forall|j: int| 0 <= j < lines.len() ==> candidate(#[trigger] lines[j]) is None,
    ensures
        first_candidate(lines) is None,
    decreases lines.len(),
{
    if lines.len() > 0 {
        lemma_no_offer(lines.drop_first());
    }
}

/// The first line that offers a target gives the link.
pub proof fn lemma_first_offer_wins(lines: Seq<Seq<char>>, i: int)
    requires
        0 <= i < lines.len(),
        candidate(lines[i]) is Some,
        forall|j: int| 0 <= j < i ==> candidate(#[trigger] lines[j]) is None,
    ensures
        first_candidate(lines) == candidate(lines[i]),
    decreases lines.len(),
{
    if i > 0 {
        lemma_first_offer_wins(lines.drop_first(), i - 1);
    }
}

/// A line that does not begin a paragraph is passed over, whatever links it
/// holds: the link is that of the text's other lines.
pub proof fn lemma_other_lines_skipped(lines: Seq<Seq<char>>, i: int)
    requires
        0 <= i < lines.len(),
        !starts_paragraph(lines[i]),
    ensures
        first_candidate(lines) == first_candidate(lines.remove(i)),
    decreases lines.len(),
{
    if i > 0 {
        lemma_other_lines_skipped(lines.drop_first(), i - 1);
        assert(lines.remove(i).drop_first() == lines.drop_first().remove(i - 1));
    }
}

/// The link of a text is the target of the first link in its first line that
/// begins a paragraph and holds a link.
pub proof fn lemma_extraction_precedence(text: Seq<char>, i: int)
    requires
        0 <= i < lines_of(text).len(),
        starts_paragraph(lines_of(text)[i]),
        link_in(lines_of(text)[i]) is Some,
        forall|j: int|
            0 <= j < i ==> !starts_paragraph(#[trigger] lines_of(text)[j]) || link_in(
                lines_of(text)[j],
            ) is None,
    ensures
        first_link(text) == link_in(lines_of(text)[i]),
{
    lemma_first_offer_wins(lines_of(text), i);
}

/// A line that is empty, or begins with a character of ASCII other than a
/// letter, a digit and the apostrophe, offers no target, whatever links it
/// holds. So does a line that begins with `[`.
pub proof fn lemma_markup_line_offers_nothing(line: Seq<char>)
    requires
        line.len() > 0 ==> line[0] <= '\u{7f}' && !ascii_alphanumeric(line[0]) && line[0] != '\'',
    ensures
        candidate(line) is None,
{
}

/// The link of a text of one line that begins a paragraph is the target of
/// the first link in that line.
pub proof fn lemma_link_of_one_line(text: Seq<char>)
    requires
        starts_paragraph(text),
        forall|i: int| 0 <= i < text.len() ==> #[trigger] text[i] != '\n',
    ensures
        first_link(text) == link_in(text),
{
    lemma_one_line(text);
    reveal_with_fuel(first_candidate, 2);
}

} // verus!
