//! Stripping asides, templates and citations from a body text.

use crate::pattern::{
    compile, compiled, has_match, is_match, lemma_remains_of_remains, remains_of, replace_all,
    replaced,
};
use vstd::prelude::*;

verus! {

/// An aside in parentheses: from `(` to the next `)`, on one line.
pub const PARENS: &'static str = r"\(.*?\)";

/// A template: from `{{` to the next `}}`, over any number of lines.
pub const BRACES: &'static str = r"(?sm)\{\{.*?\}\}";

/// A citation: from `<ref>` to the next `</ref>`, on one line.
pub const SOURCE: &'static str = r"<ref>.*?</ref>";

/// Whether the expression for `pattern` finds something in `text`.
pub open spec fn finds(pattern: Seq<char>, text: Seq<char>) -> bool {
    has_match(compiled(pattern)->0, text)
}

/// `text` without what the expression for `pattern` finds in it.
pub open spec fn without(pattern: Seq<char>, text: Seq<char>) -> Seq<char> {
    replaced(compiled(pattern)->0, text, Seq::empty())
}

/// `text` after the three passes: asides first, then templates, then
/// citations.
pub open spec fn filtered(text: Seq<char>) -> Seq<char> {
    without(SOURCE@, without(BRACES@, without(PARENS@, text)))
}

/// Whether none of the three passes finds anything in `text`.
pub open spec fn is_clean(text: Seq<char>) -> bool {
    !finds(PARENS@, text) && !finds(BRACES@, text) && !finds(SOURCE@, text)
}

/// The three passes, compiled once.
pub struct TextFilter {
    braces: regex::Regex,
    parens: regex::Regex,
    source: regex::Regex,
}

impl TextFilter {
    #[verifier::type_invariant]
    spec fn holds_the_patterns(self) -> bool {
        &&& compiled(PARENS@) == Some(self.parens)
        &&& compiled(BRACES@) == Some(self.braces)
        &&& compiled(SOURCE@) == Some(self.source)
    }

    /// Compiles the three patterns. Fails where the `regex` crate refuses one
    /// of them.
    pub fn new() -> (made: Option<TextFilter>)
        ensures
            made is Some <==> compiled(PARENS@) is Some && compiled(BRACES@) is Some && compiled(
                SOURCE@,
            ) is Some,
    {
        let parens = compile(PARENS);
        let braces = compile(BRACES);
        let source = compile(SOURCE);
        match (parens, braces, source) {
            (Some(parens), Some(braces), Some(source)) => Some(
                TextFilter { braces, parens, source },
            ),
            _ => None,
        }
    }

    /// Whether none of the three passes finds anything in `text`.
    pub fn is_clean(&self, text: &str) -> (clean: bool)
        ensures
            clean == is_clean(text@),
    {
        proof {
            use_type_invariant(self);
        }
        !is_match(&self.parens, text) && !is_match(&self.braces, text) && !is_match(
            &self.source,
            text,
        )
    }

    /// `text` after the three passes. The passes only take characters away.
    pub fn filter(&self, text: &str) -> (clean: String)
        ensures
            clean@ == filtered(text@),
            remains_of(clean@, text@),
    {
        proof {
            use_type_invariant(self);
            reveal_strlit("");
            assert(""@ == Seq::<char>::empty());
        }
        let first = replace_all(&self.parens, text, "");
        let second = replace_all(&self.braces, first.as_str(), "");
        let third = replace_all(&self.source, second.as_str(), "");
        proof {
            lemma_remains_of_remains(second@, first@, text@);
            lemma_remains_of_remains(third@, second@, text@);
        }
        third
    }
}

/// A text in which none of the three passes finds anything comes out of the
/// filter unchanged.
pub proof fn lemma_clean_text_unchanged(text: Seq<char>)
    requires
        is_clean(text),
    ensures
        filtered(text) == text,
{
}

} // verus!
