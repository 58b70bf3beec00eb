//! A source document known by its path and page count.
use vstd::prelude::*;

verus! {

/// A document to merge from.
#[derive(Debug, Clone)]
pub struct BareOFDDoc {
    path: String,
    page_count: usize,
}

impl View for BareOFDDoc {
    /// The path and the page count.
    type V = (Seq<char>, usize);

    closed spec fn view(&self) -> (Seq<char>, usize) {
        (self.path@, self.page_count)
    }
}

impl BareOFDDoc {
    /// The document at `path` with `page_count` pages.
    pub fn new(path: &str, page_count: usize) -> (r: Self)
        ensures
            r@ == (path@, page_count),
    {
        BareOFDDoc { path: String::from_str(path), page_count }
    }

    /// Its path.
    pub fn path(&self) -> (r: &str)
        ensures
            r@ == self@.0,
    {
        self.path.as_str()
    }

    /// Its number of pages.
    pub fn page_count(&self) -> (r: usize)
        ensures
            r == self@.1,
    {
        self.page_count
    }
}

} // verus!
