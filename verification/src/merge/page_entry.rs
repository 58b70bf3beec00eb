//! One page of a merge plan: which page of which source, what to copy along, and pages to
//! lay over it.
use vstd::prelude::*;

verus! {

/// A planned output page.
#[derive(Debug)]
pub struct PageEntry {
    /// Index of the source document.
    pub doc_ctx_index: usize,
    /// Page number in the source document (from 1).
    pub page_index: usize,
    /// Whether the page's template goes along.
    pub copy_template: bool,
    /// Whether the page's annotations go along.
    pub copy_annotations: bool,
    /// Pages laid over this one.
    pub tb_mix_pages: Vec<PageEntry>,
}

/// `b` plans the same pages as `a`: equal fields, and the same plans laid over it.
pub open spec fn same_plan(a: PageEntry, b: PageEntry) -> bool
    decreases a,
{
    &&& a.doc_ctx_index == b.doc_ctx_index
    &&& a.page_index == b.page_index
    &&& a.copy_template == b.copy_template
    &&& a.copy_annotations == b.copy_annotations
    &&& a.tb_mix_pages@.len() == b.tb_mix_pages@.len()
    &&& forall|i: int|
        0 <= i < a.tb_mix_pages@.len() ==> {
            &&& decreases_to!(a => a.tb_mix_pages@[i])
            &&& same_plan(#[trigger] a.tb_mix_pages@[i], b.tb_mix_pages@[i])
        }
}

impl PageEntry {
    /// A copy planning the same pages.
    pub fn clone(&self) -> (r: Self)
        ensures
            same_plan(*self, r),
        decreases self,
    {
        let mut mix: Vec<PageEntry> = Vec::new();
        let mut i: usize = 0;
        while i < self.tb_mix_pages.len()
            invariant
                i <= self.tb_mix_pages@.len(),
                mix@.len() == i,
                forall|k: int| 0 <= k < i ==> same_plan(#[trigger] self.tb_mix_pages@[k], mix@[k]),
            decreases self.tb_mix_pages@.len() - i,
        {
            proof {
                assert(decreases_to!(*self => self.tb_mix_pages@[i as int]));
            }
            let c = self.tb_mix_pages[i].clone();
            mix.push(c);
            i = i + 1;
        }
        PageEntry {
            doc_ctx_index: self.doc_ctx_index,
            page_index: self.page_index,
            copy_template: self.copy_template,
            copy_annotations: self.copy_annotations,
            tb_mix_pages: mix,
        }
    }

    /// Page `page_index` of source `doc_ctx_index`, with template and annotations.
    pub fn new(page_index: usize, doc_ctx_index: usize) -> (r: Self)
        ensures
            r.page_index == page_index,
            r.doc_ctx_index == doc_ctx_index,
            r.copy_template,
            r.copy_annotations,
            r.tb_mix_pages@.len() == 0,
    {
        PageEntry { doc_ctx_index, page_index, copy_template: true, copy_annotations: true, tb_mix_pages: Vec::new() }
    }

    /// As `new`, with pages laid over it.
    pub fn with_mix_pages(page_index: usize, doc_ctx_index: usize, tb_mix_pages: Vec<PageEntry>) -> (r: Self)
        ensures
            r.page_index == page_index,
            r.doc_ctx_index == doc_ctx_index,
            r.copy_template,
            r.copy_annotations,
            r.tb_mix_pages@ == tb_mix_pages@,
    {
        PageEntry { doc_ctx_index, page_index, copy_template: true, copy_annotations: true, tb_mix_pages }
    }

    /// The same entry with the template flag set to `copy`.
    pub fn copy_template(self, copy: bool) -> (r: Self)
        ensures
            r.copy_template == copy,
            r.page_index == self.page_index,
            r.doc_ctx_index == self.doc_ctx_index,
            r.copy_annotations == self.copy_annotations,
            r.tb_mix_pages@ == self.tb_mix_pages@,
    {
        let mut e = self;
        e.copy_template = copy;
        e
    }

    /// The same entry with the annotation flag set to `copy`.
    pub fn copy_annotations(self, copy: bool) -> (r: Self)
        ensures
            r.copy_annotations == copy,
            r.page_index == self.page_index,
            r.doc_ctx_index == self.doc_ctx_index,
            r.copy_template == self.copy_template,
            r.tb_mix_pages@ == self.tb_mix_pages@,
    {
        let mut e = self;
        e.copy_annotations = copy;
        e
    }

    /// Page number in the source.
    pub fn page_index(&self) -> (r: usize)
        ensures
            r == self.page_index,
    {
        self.page_index
    }

    /// Index of the source document.
    pub fn doc_ctx_index(&self) -> (r: usize)
        ensures
            r == self.doc_ctx_index,
    {
        self.doc_ctx_index
    }

    /// Whether the template goes along.
    pub fn should_copy_template(&self) -> (r: bool)
        ensures
            r == self.copy_template,
    {
        self.copy_template
    }

    /// Whether the annotations go along.
    pub fn should_copy_annotations(&self) -> (r: bool)
        ensures
            r == self.copy_annotations,
    {
        self.copy_annotations
    }

    /// Pages laid over this one.
    pub fn tb_mix_pages(&self) -> (r: &[PageEntry])
        ensures
            r@ == self.tb_mix_pages@,
    {
        self.tb_mix_pages.as_slice()
    }

    /// Whether any page is laid over this one.
    pub fn has_mix_pages(&self) -> (r: bool)
        ensures
            r == (self.tb_mix_pages@.len() > 0),
    {
        self.tb_mix_pages.len() > 0
    }
}

} // verus!
