//! Cutting an export into page blocks, line by line.

use crate::text::{lines_of, spans, split_lines, trim_bounds, trimmed};
use vstd::prelude::*;

verus! {

/// The line that begins a page, once trimmed.
pub const PAGE_OPEN: &'static str = "<page>";

/// The line that ends a page, once trimmed.
pub const PAGE_CLOSE: &'static str = "</page>";

/// Whether `line` begins a page.
pub open spec fn opens_page(line: Seq<char>) -> bool {
    trimmed(line) == PAGE_OPEN@
}

/// Whether `line` ends a page.
pub open spec fn closes_page(line: Seq<char>) -> bool {
    trimmed(line) == PAGE_CLOSE@
}

/// What a [`PageBuffer`] remembers between two lines.
pub struct Scan {
    /// A line that begins a page was seen since the last block.
    pub inside: bool,
    /// The lines gathered for the next block, each with its line feed.
    pub pending: Seq<char>,
    /// The sequence of blocks is over.
    pub ended: bool,
}

impl Scan {
    /// Before the first line.
    pub open spec fn start() -> Scan {
        Scan { inside: false, pending: Seq::empty(), ended: false }
    }

    /// After the end of the input, or after a failed read.
    pub open spec fn end() -> Scan {
        Scan { inside: false, pending: Seq::empty(), ended: true }
    }

    /// What is pending, with `line` and a line feed added.
    pub open spec fn grown(self, line: Seq<char>) -> Seq<char> {
        self.pending + line + seq!['\n']
    }

    /// The block that `line` completes, if it completes one.
    pub open spec fn emits(self, line: Seq<char>) -> Option<Seq<char>> {
        if !self.ended && closes_page(line) {
            Some(self.grown(line))
        } else {
            None
        }
    }

    /// What is remembered after `line`.
    pub open spec fn step(self, line: Seq<char>) -> Scan {
        if self.ended {
            self
        } else if opens_page(line) {
            Scan { inside: true, pending: self.grown(line), ended: false }
        } else if closes_page(line) {
            Scan::start()
        } else if self.inside {
            Scan { inside: true, pending: self.grown(line), ended: false }
        } else {
            self
        }
    }

    /// The block that the end of the input completes: what is pending, if
    /// anything is.
    pub open spec fn flush(self) -> Option<Seq<char>> {
        if !self.ended && self.pending.len() > 0 {
            Some(self.pending)
        } else {
            None
        }
    }
}

/// The blocks that come out of `lines` and the end of the input after them,
/// starting from `scan`.
pub open spec fn blocks_from(scan: Scan, lines: Seq<Seq<char>>) -> Seq<Seq<char>>
    decreases lines.len(),
{
    if lines.len() == 0 {
        match scan.flush() {
            Some(block) => seq![block],
            None => Seq::empty(),
        }
    } else {
        let rest = blocks_from(scan.step(lines.first()), lines.drop_first());
        match scan.emits(lines.first()) {
            Some(block) => seq![block] + rest,
            None => rest,
        }
    }
}

/// The blocks of an input that consists of `lines`.
pub open spec fn blocks_of(lines: Seq<Seq<char>>) -> Seq<Seq<char>> {
    blocks_from(Scan::start(), lines)
}

/// No line both begins and ends a page.
pub proof fn lemma_markers_differ(line: Seq<char>)
    ensures
        !(opens_page(line) && closes_page(line)),
{
    reveal_strlit("<page>");
    reveal_strlit("</page>");
    assert(PAGE_CLOSE@.len() == 7);
}

/// Gathers the lines of an input into page blocks. The caller reads the
/// lines and hands them over one by one.
pub struct PageBuffer {
    take: bool,
    buf: String,
    done: bool,
}

impl View for PageBuffer {
    type V = Scan;

    closed spec fn view(&self) -> Scan {
        Scan { inside: self.take, pending: self.buf@, ended: self.done }
    }
}

impl PageBuffer {
    /// A buffer that has seen no line yet.
    pub fn new() -> (fresh: PageBuffer)
        ensures
            fresh@ == Scan::start(),
    {
        PageBuffer { take: false, buf: String::new(), done: false }
    }

    /// Whether the sequence of blocks is over.
    pub fn is_done(&self) -> (done: bool)
        ensures
            done == self@.ended,
    {
        self.done
    }

    /// Takes the next line of the input, without its line ending, and returns
    /// the block that it completes, if any.
    pub fn push(&mut self, line: &str) -> (block: Option<String>)
        ensures
            final(self)@ == old(self)@.step(line@),
            block.deep_view() == old(self)@.emits(line@),
    {
        proof {
            lemma_markers_differ(line@);
            reveal_strlit("\n");
            assert("\n"@ == seq!['\n']);
        }
        if self.done {
            return None;
        }
        let (from, to) = trim_bounds(line);
        if spans(line, from, to, PAGE_OPEN) {
            self.take = true;
            self.buf.append(line);
            self.buf.append("\n");
            None
        } else if spans(line, from, to, PAGE_CLOSE) {
            self.buf.append(line);
            self.buf.append("\n");
            let mut block = String::new();
            core::mem::swap(&mut self.buf, &mut block);
            self.take = false;
            Some(block)
        } else if self.take {
            self.buf.append(line);
            self.buf.append("\n");
            None
        } else {
            None
        }
    }

    /// Takes the end of the input: returns what is pending as a last block,
    /// if anything is, and ends the sequence.
    pub fn finish(&mut self) -> (block: Option<String>)
        ensures
            final(self)@ == Scan::end(),
            block.deep_view() == old(self)@.flush(),
    {
        let mut block = String::new();
        core::mem::swap(&mut self.buf, &mut block);
        let last = !self.done && !block.as_str().is_empty();
        self.take = false;
        self.done = true;
        if last {
            Some(block)
        } else {
            None
        }
    }

    /// Takes a failed read: drops what is pending and ends the sequence.
    pub fn stop(&mut self)
        ensures
            final(self)@ == Scan::end(),
    {
        self.take = false;
        self.buf = String::new();
        self.done = true;
    }
}

/// The page blocks of `text`, in their order.
pub fn split_pages(text: &str) -> (blocks: Vec<String>)
    ensures
        blocks.deep_view() == blocks_of(lines_of(text@)),
{
    let lines = split_lines(text);
    let mut buffer = PageBuffer::new();
    let mut blocks: Vec<String> = Vec::new();
    let mut i: usize = 0;
    assert(lines_of(text@).skip(0) == lines_of(text@));
    while i < lines.len()
        invariant
            i <= lines.len(),
            lines.deep_view() == lines_of(text@),
            blocks_of(lines_of(text@)) == blocks.deep_view() + blocks_from(
                buffer@,
                lines_of(text@).skip(i as int),
            ),
        decreases lines.len() - i,
    {
        assert(lines_of(text@).skip(i as int).drop_first() == lines_of(text@).skip(i + 1));
        if let Some(block) = buffer.push(lines[i]) {
            blocks.push(block);
        }
        i = i + 1;
    }
    if let Some(block) = buffer.finish() {
        blocks.push(block);
    }
    blocks
}

/// Whether `line` neither begins nor ends a page.
pub open spec fn is_plain(line: Seq<char>) -> bool {
    !opens_page(line) && !closes_page(line)
}

/// `lines` as one text, each line followed by a line feed.
pub open spec fn joined(lines: Seq<Seq<char>>) -> Seq<char>
    decreases lines.len(),
{
    if lines.len() == 0 {
        Seq::empty()
    } else {
        lines.first() + seq!['\n'] + joined(lines.drop_first())
    }
}

/// One part of an input: a line outside every page, or the lines of a page.
pub enum Piece {
    /// A line outside every page.
    Stray(Seq<char>),
    /// The lines of one page, from the line that begins it to the line that
    /// ends it.
    Page(Seq<Seq<char>>),
}

impl Piece {
    /// A stray line is plain; a page begins with a line that begins a page,
    /// ends with a line that ends one, and has only plain lines between.
    pub open spec fn well_formed(self) -> bool {
        match self {
            Piece::Stray(line) => is_plain(line),
            Piece::Page(lines) => {
                &&& lines.len() >= 2
                &&& opens_page(lines.first())
                &&& closes_page(lines.last())
                &&& forall|i: int| 0 < i < lines.len() - 1 ==> is_plain(#[trigger] lines[i])
            },
        }
    }

    /// The lines of this part.
    pub open spec fn lines(self) -> Seq<Seq<char>> {
        match self {
            Piece::Stray(line) => seq![line],
            Piece::Page(lines) => lines,
        }
    }
}

/// The lines of an input made of `pieces`.
pub open spec fn document(pieces: Seq<Piece>) -> Seq<Seq<char>>
    decreases pieces.len(),
{
    if pieces.len() == 0 {
        Seq::empty()
    } else {
        pieces.first().lines() + document(pieces.drop_first())
    }
}

/// The pages among `pieces`, each as one text, in their order.
pub open spec fn pages_in(pieces: Seq<Piece>) -> Seq<Seq<char>>
    decreases pieces.len(),
{
    if pieces.len() == 0 {
        Seq::empty()
    } else {
        let rest = pages_in(pieces.drop_first());
        match pieces.first() {
            Piece::Stray(_) => rest,
            Piece::Page(lines) => seq![joined(lines)] + rest,
        }
    }
}

/// Inside a page, plain lines up to the line that ends the page complete
/// one block: what was pending, followed by those lines.
proof fn lemma_page_body(pending: Seq<char>, body: Seq<Seq<char>>, rest: Seq<Seq<char>>)
    requires
        body.len() >= 1,
        closes_page(body.last()),
        forall|i: int| 0 <= i < body.len() - 1 ==> is_plain(#[trigger] body[i]),
    ensures
        blocks_from(Scan { inside: true, pending, ended: false }, body + rest) == seq![
            pending + joined(body),
        ] + blocks_from(Scan::start(), rest),
    decreases body.len(),
{
    let scan = Scan { inside: true, pending, ended: false };
    let line = body.first();
    let tail = body.drop_first();
    assert((body + rest).drop_first() == tail + rest);
    lemma_markers_differ(line);
    if body.len() == 1 {
        assert(pending + joined(body) == scan.grown(line));
    } else {
        lemma_page_body(scan.grown(line), tail, rest);
        assert(scan.grown(line) + joined(tail) == pending + joined(body));
    }
}

/// From an input of stray plain lines and well-formed pages, one block comes
/// out for each page, in the order of the pages: the lines of the page, from
/// the line that begins it to the line that ends it, each followed by a line
/// feed.
pub proof fn lemma_one_block_per_page(pieces: Seq<Piece>)
    requires
        forall|i: int| 0 <= i < pieces.len() ==> (#[trigger] pieces[i]).well_formed(),
    ensures
        blocks_of(document(pieces)) == pages_in(pieces),
    decreases pieces.len(),
{
    if pieces.len() > 0 {
        let others = pieces.drop_first();
        let after = document(others);
        lemma_one_block_per_page(others);
        match pieces.first() {
            Piece::Stray(line) => {
                assert((seq![line] + after).drop_first() == after);
            },
            Piece::Page(lines) => {
                let line = lines.first();
                let body = lines.drop_first();
                lemma_markers_differ(line);
                assert((lines + after).drop_first() == body + after);
                lemma_page_body(Scan::start().grown(line), body, after);
            },
        }
    }
}

} // verus!
