//! From decoded pages to output records.

use crate::extract::{
    candidate, first_link, lemma_link_of_one_line, lemma_no_offer, link_in, starts_paragraph,
    LinkExtractor,
};
use crate::filter::{filtered, TextFilter};
use crate::page::{is_disambiguation, is_redirect, Page, PageView};
use crate::text::lines_of;
use vstd::prelude::*;

verus! {

/// What stands between title and link in an output line.
pub const ARROW: &'static str = " -> ";

/// A page with its first link.
#[derive(Clone, Debug)]
pub struct OutputRecord {
    /// The title of the page.
    pub title: String,
    /// The target of its first link.
    pub link: String,
}

/// An output record as plain text.
pub struct Record {
    pub title: Seq<char>,
    pub link: Seq<char>,
}

impl View for OutputRecord {
    type V = Record;

    open spec fn view(&self) -> Record {
        Record { title: self.title@, link: self.link@ }
    }
}

impl DeepView for OutputRecord {
    type V = Record;

    open spec fn deep_view(&self) -> Record {
        self@
    }
}

impl Record {
    /// The output line of the record: title, arrow, link.
    pub open spec fn line(self) -> Seq<char> {
        self.title + ARROW@ + self.link
    }
}

/// The record of `page`: its title with the first link of its searched text
/// after filtering. None for a disambiguation page, a page without body, and
/// a page without link.
pub open spec fn record_of(page: PageView) -> Option<Record> {
    match page.searched() {
        None => None,
        Some(text) => match first_link(filtered(text)) {
            None => None,
            Some(link) => Some(Record { title: page.title, link }),
        },
    }
}

/// The records of `pages`, in the order of the pages.
pub open spec fn records_of(pages: Seq<PageView>) -> Seq<Record>
    decreases pages.len(),
{
    if pages.len() == 0 {
        Seq::empty()
    } else {
        let rest = records_of(pages.drop_first());
        match record_of(pages.first()) {
            Some(record) => seq![record] + rest,
            None => rest,
        }
    }
}

impl OutputRecord {
    /// The output line of the record.
    pub fn line(&self) -> (out: String)
        ensures
            out@ == self@.line(),
    {
        let mut out = self.title.clone();
        out.append(ARROW);
        out.append(self.link.as_str());
        out
    }
}

/// The record of `page`, if it has one.
pub fn first_link_of(filter: &TextFilter, extractor: &LinkExtractor, page: &Page) -> (found:
    Option<OutputRecord>)
    ensures
        found.deep_view() == record_of(page@),
{
    match page.searched() {
        None => None,
        Some(text) => {
            let clean = filter.filter(text);
            match extractor.extract(clean.as_str()) {
                None => None,
                Some(link) => Some(OutputRecord { title: page.title.clone(), link: link.to_owned() }),
            }
        },
    }
}

/// The records of `pages`, in the order of the pages.
pub fn first_links(filter: &TextFilter, extractor: &LinkExtractor, pages: &Vec<Page>) -> (found:
    Vec<OutputRecord>)
    ensures
        found.deep_view() == records_of(pages.deep_view()),
{
    let mut found: Vec<OutputRecord> = Vec::new();
    let mut i: usize = 0;
    let ghost all = pages.deep_view();
    assert(all.skip(0) == all);
    while i < pages.len()
        invariant
            i <= pages.len(),
            all == pages.deep_view(),
            records_of(all) == found.deep_view() + records_of(all.skip(i as int)),
        decreases pages.len() - i,
    {
        assert(all.skip(i as int).drop_first() == all.skip(i + 1));
        if let Some(record) = first_link_of(filter, extractor, &pages[i]) {
            found.push(record);
        }
        i = i + 1;
    }
    found
}

/// A page without a record leaves no trace in the output: the records are
/// those of the other pages.
pub proof fn lemma_page_without_record(pages: Seq<PageView>, i: int)
    requires
        0 <= i < pages.len(),
        record_of(pages[i]) is None,
    ensures
        records_of(pages) == records_of(pages.remove(i)),
    decreases pages.len(),
{
    if i > 0 {
        lemma_page_without_record(pages.drop_first(), i - 1);
        assert(pages.remove(i).drop_first() == pages.drop_first().remove(i - 1));
    }
}

/// A page whose first revision is a redirect never appears in the output,
/// whatever else it holds.
pub proof fn lemma_redirect_excluded(pages: Seq<PageView>, i: int)
    requires
        0 <= i < pages.len(),
        pages[i].revisions.len() > 0,
        is_redirect(pages[i].revisions[0]),
    ensures
        record_of(pages[i]) is None,
        records_of(pages) == records_of(pages.remove(i)),
{
    lemma_page_without_record(pages, i);
}

/// A disambiguation page never appears in the output, whatever links it
/// holds.
pub proof fn lemma_disambiguation_excluded(pages: Seq<PageView>, i: int)
    requires
        0 <= i < pages.len(),
        is_disambiguation(pages[i].title),
    ensures
        record_of(pages[i]) is None,
        records_of(pages) == records_of(pages.remove(i)),
{
    lemma_page_without_record(pages, i);
}

/// A searched page whose filtered text is one line that begins a paragraph
/// has the record of its title with the target of the first link in that
/// line, and none where the line holds no link.
pub proof fn lemma_record_of_one_paragraph(page: PageView)
    requires
        page.searched() is Some,
        starts_paragraph(filtered(page.searched()->0)),
        forall|i: int|
            0 <= i < filtered(page.searched()->0).len() ==> #[trigger] filtered(
                page.searched()->0,
            )[i] != '\n',
    ensures
        record_of(page) == match link_in(filtered(page.searched()->0)) {
            Some(link) => Some(Record { title: page.title, link }),
            None => None,
        },
{
    lemma_link_of_one_line(filtered(page.searched()->0));
}

/// A page in whose filtered text no line offers a target has no record.
pub proof fn lemma_no_offer_no_record(page: PageView)
    requires
        page.searched() matches Some(text) ==> forall|j: int|
            0 <= j < lines_of(filtered(text)).len() ==> candidate(
                #[trigger] lines_of(filtered(text))[j],
            ) is None,
    ensures
        record_of(page) is None,
{
    if page.searched() is Some {
        lemma_no_offer(lines_of(filtered(page.searched()->0)));
    }
}

} // verus!
