//! The first link of every article in an encyclopedia export.
//!
//! An export is a long text in which each article stands between a line
//! `<page>` and a line `</page>`. The library cuts such a text into page
//! blocks, selects the body of a decoded page, strips asides, templates and
//! citations from it, and finds the first link in what is left.

pub mod extract;
pub mod filter;
pub mod page;
pub mod pattern;
pub mod pipeline;
pub mod segment;
pub mod text;
