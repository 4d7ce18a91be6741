//! A decoded page and the choice of its body text.

use crate::text::{ends_with, starts_with};
use vstd::prelude::*;

verus! {

/// What the text of a redirect page begins with.
pub const REDIRECT: &'static str = "#REDIRECT";

/// Whether `text` is that of a redirect page.
pub open spec fn is_redirect(text: Seq<char>) -> bool {
    REDIRECT@.is_prefix_of(text)
}

/// What the title of a disambiguation page ends with.
pub const DISAMBIGUATION: &'static str = "(disambiguation)";

/// Whether `title` is that of a disambiguation page.
pub open spec fn is_disambiguation(title: Seq<char>) -> bool {
    DISAMBIGUATION@.is_suffix_of(title)
}

/// One version of a page.
#[derive(Clone, Debug)]
pub struct Revision {
    /// The wikitext of this version.
    pub text: String,
}

/// One article of the export.
#[derive(Clone, Debug)]
pub struct Page {
    /// The title of the article.
    pub title: String,
    /// The versions of the article, in the order of the export.
    pub revision: Vec<Revision>,
}

/// A page as plain text: its title and the text of each of its revisions.
pub struct PageView {
    pub title: Seq<char>,
    pub revisions: Seq<Seq<char>>,
}

impl PageView {
    /// The body of the page: the text of its first revision, unless there is
    /// no revision or that text is a redirect.
    pub open spec fn body(self) -> Option<Seq<char>> {
        if self.revisions.len() > 0 && !is_redirect(self.revisions[0]) {
            Some(self.revisions[0])
        } else {
            None
        }
    }

    /// The text in which a link is looked for: the body of the page, unless
    /// the page is a disambiguation page.
    pub open spec fn searched(self) -> Option<Seq<char>> {
        if is_disambiguation(self.title) {
            None
        } else {
            self.body()
        }
    }
}

impl View for Revision {
    type V = Seq<char>;

    open spec fn view(&self) -> Seq<char> {
        self.text@
    }
}

impl View for Page {
    type V = PageView;

    open spec fn view(&self) -> PageView {
        PageView {
            title: self.title@,
            revisions: Seq::new(self.revision@.len(), |i: int| self.revision@[i]@),
        }
    }
}

impl DeepView for Page {
    type V = PageView;

    open spec fn deep_view(&self) -> PageView {
        self@
    }
}

impl Page {
    /// The body text of the page, if it has one.
    pub fn text(&self) -> (body: Option<&str>)
        ensures
            body.deep_view() == self@.body(),
    {
        if self.revision.len() == 0 {
            return None;
        }
        let candidate = self.revision[0].text.as_str();
        if starts_with(candidate, REDIRECT) {
            None
        } else {
            Some(candidate)
        }
    }

    /// Whether this is a disambiguation page.
    pub fn is_disambiguation(&self) -> (b: bool)
        ensures
            b == is_disambiguation(self@.title),
    {
        ends_with(self.title.as_str(), DISAMBIGUATION)
    }

    /// The text in which a link is looked for, if the page has one.
    pub fn searched(&self) -> (text: Option<&str>)
        ensures
            text.deep_view() == self@.searched(),
    {
        if self.is_disambiguation() {
            None
        } else {
            self.text()
        }
    }
}

} // verus!
