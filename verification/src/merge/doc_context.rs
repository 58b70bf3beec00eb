//! Bookkeeping of a merge: source documents by index, where each output page comes from,
//! and how resource paths are renamed.
use vstd::prelude::*;
use crate::assoc::{assoc_map, distinct_keys, lemma_assoc_map_insert_len, lemma_assoc_map_lookup, lemma_assoc_map_push, lemma_assoc_map_update};

verus! {

/// Entries with their text values read as character sequences.
pub open spec fn text_entries(v: Seq<(usize, String)>) -> Seq<(usize, Seq<char>)> {
    v.map_values(|e: (usize, String)| (e.0, e.1@))
}

/// Entries with text keys and values read as character sequences.
pub open spec fn text_pairs(v: Seq<(String, String)>) -> Seq<(Seq<char>, Seq<char>)> {
    v.map_values(|e: (String, String)| (e.0@, e.1@))
}

/// The merge bookkeeping.
#[derive(Debug)]
pub struct DocContext {
    source_paths: Vec<(usize, String)>,
    page_mapping: Vec<(usize, (usize, usize))>,
    resource_remap: Vec<(String, String)>,
}

/// The three maps of a merge: source index to path, output page to (source, page), and
/// original resource path to new path.
pub struct DocContextView {
    /// Paths of the source documents by index.
    pub sources: Map<usize, Seq<char>>,
    /// For each output page, its source document and page.
    pub pages: Map<usize, (usize, usize)>,
    /// New resource paths by original path.
    pub remap: Map<Seq<char>, Seq<char>>,
}

impl View for DocContext {
    type V = DocContextView;

    closed spec fn view(&self) -> DocContextView {
        DocContextView {
            sources: assoc_map(text_entries(self.source_paths@)),
            pages: assoc_map(self.page_mapping@),
            remap: assoc_map(text_pairs(self.resource_remap@)),
        }
    }
}

fn find_usize_text(v: &Vec<(usize, String)>, k: usize) -> (r: Option<usize>)
    ensures
        match r {
            Some(i) => i < v@.len() && v@[i as int].0 == k,
            None => forall|i: int| 0 <= i < v@.len() ==> v@[i].0 != k,
        },
{
    let mut i: usize = 0;
    while i < v.len()
        invariant
            i <= v@.len(),
            forall|j: int| 0 <= j < i ==> v@[j].0 != k,
        decreases v@.len() - i,
    {
        if v[i].0 == k {
            return Some(i);
        }
        i = i + 1;
    }
    None
}

fn find_usize_pair(v: &Vec<(usize, (usize, usize))>, k: usize) -> (r: Option<usize>)
    ensures
        match r {
            Some(i) => i < v@.len() && v@[i as int].0 == k,
            None => forall|i: int| 0 <= i < v@.len() ==> v@[i].0 != k,
        },
{
    let mut i: usize = 0;
    while i < v.len()
        invariant
            i <= v@.len(),
            forall|j: int| 0 <= j < i ==> v@[j].0 != k,
        decreases v@.len() - i,
    {
        if v[i].0 == k {
            return Some(i);
        }
        i = i + 1;
    }
    None
}

fn find_text_key(v: &Vec<(String, String)>, k: &str) -> (r: Option<usize>)
    ensures
        match r {
            Some(i) => i < v@.len() && v@[i as int].0@ == k@,
            None => forall|i: int| 0 <= i < v@.len() ==> v@[i].0@ != k@,
        },
{
    let mut i: usize = 0;
    while i < v.len()
        invariant
            i <= v@.len(),
            forall|j: int| 0 <= j < i ==> v@[j].0@ != k@,
        decreases v@.len() - i,
    {
        if crate::text::str_eq(v[i].0.as_str(), k) {
            return Some(i);
        }
        i = i + 1;
    }
    None
}

impl DocContext {
    #[verifier::type_invariant]
    spec fn keys_distinct(self) -> bool {
        &&& distinct_keys(text_entries(self.source_paths@))
        &&& distinct_keys(self.page_mapping@)
        &&& distinct_keys(text_pairs(self.resource_remap@))
    }

    /// Empty bookkeeping.
    pub fn new() -> (r: Self)
        ensures
            r@.sources == Map::<usize, Seq<char>>::empty(),
            r@.pages == Map::<usize, (usize, usize)>::empty(),
            r@.remap == Map::<Seq<char>, Seq<char>>::empty(),
    {
        let r = DocContext { source_paths: Vec::new(), page_mapping: Vec::new(), resource_remap: Vec::new() };
        assert(text_entries(r.source_paths@) =~= Seq::empty());
        assert(text_pairs(r.resource_remap@) =~= Seq::empty());
        r
    }

    /// Records the path of source document `index`, replacing an earlier one.
    pub fn add_source(&mut self, index: usize, path: &str)
        ensures
            final(self)@.sources == old(self)@.sources.insert(index, path@),
            final(self)@.pages == old(self)@.pages,
            final(self)@.remap == old(self)@.remap,
            final(self)@.sources.len() == if old(self)@.sources.contains_key(index) {
                old(self)@.sources.len()
            } else {
                old(self)@.sources.len() + 1
            },
    {
        proof {
            use_type_invariant(&*self);
            lemma_assoc_map_insert_len(text_entries(self.source_paths@), index, path@);
        }
        let ghost before = text_entries(self.source_paths@);
        let p = String::from_str(path);
        match find_usize_text(&self.source_paths, index) {
            Some(i) => {
                proof {
                    lemma_assoc_map_update(before, i as int, path@);
                    assert(text_entries(self.source_paths@.update(i as int, (index, p))) =~= before.update(
                        i as int,
                        (before[i as int].0, path@),
                    ));
                }
                let mut v: Vec<(usize, String)> = Vec::new();
                std::mem::swap(&mut v, &mut self.source_paths);
                v.set(i, (index, p));
                self.source_paths = v;
            },
            None => {
                proof {
                    lemma_assoc_map_push(before, index, path@);
                    assert(text_entries(self.source_paths@.push((index, p))) =~= before.push(
                        (index, path@),
                    ));
                }
                let mut v: Vec<(usize, String)> = Vec::new();
                std::mem::swap(&mut v, &mut self.source_paths);
                v.push((index, p));
                self.source_paths = v;
            },
        }
    }

    /// Path of source document `index`.
    pub fn source_path(&self, index: usize) -> (r: Option<&str>)
        ensures
            match r {
                Some(s) => self@.sources.contains_key(index) && self@.sources[index] == s@,
                None => !self@.sources.contains_key(index),
            },
    {
        proof {
            use_type_invariant(self);
            lemma_assoc_map_lookup(text_entries(self.source_paths@));
        }
        match find_usize_text(&self.source_paths, index) {
            Some(i) => {
                assert(text_entries(self.source_paths@)[i as int].0 == index);
                Some(self.source_paths[i].1.as_str())
            },
            None => {
                assert forall|j: int| 0 <= j < text_entries(self.source_paths@).len() implies text_entries(
                    self.source_paths@,
                )[j].0 != index by {
                    assert(self.source_paths@[j].0 != index);
                }
                None
            },
        }
    }

    /// Records that output page `global_index` is page `page_index` of source
    /// `source_index`, replacing an earlier record.
    pub fn add_page_mapping(&mut self, global_index: usize, source_index: usize, page_index: usize)
        ensures
            final(self)@.pages == old(self)@.pages.insert(global_index, (source_index, page_index)),
            final(self)@.sources == old(self)@.sources,
            final(self)@.remap == old(self)@.remap,
            final(self)@.pages.len() == if old(self)@.pages.contains_key(global_index) {
                old(self)@.pages.len()
            } else {
                old(self)@.pages.len() + 1
            },
    {
        proof {
            use_type_invariant(&*self);
            lemma_assoc_map_insert_len(self.page_mapping@, global_index, (source_index, page_index));
        }
        let ghost before = self.page_mapping@;
        match find_usize_pair(&self.page_mapping, global_index) {
            Some(i) => {
                proof {
                    lemma_assoc_map_update(before, i as int, (source_index, page_index));
                }
                let mut v: Vec<(usize, (usize, usize))> = Vec::new();
                std::mem::swap(&mut v, &mut self.page_mapping);
                v.set(i, (global_index, (source_index, page_index)));
                self.page_mapping = v;
            },
            None => {
                proof {
                    lemma_assoc_map_push(before, global_index, (source_index, page_index));
                }
                let mut v: Vec<(usize, (usize, usize))> = Vec::new();
                std::mem::swap(&mut v, &mut self.page_mapping);
                v.push((global_index, (source_index, page_index)));
                self.page_mapping = v;
            },
        }
    }

    /// Where output page `global_index` comes from.
    pub fn page_mapping(&self, global_index: usize) -> (r: Option<(usize, usize)>)
        ensures
            match r {
                Some(p) => self@.pages.contains_key(global_index) && self@.pages[global_index] == p,
                None => !self@.pages.contains_key(global_index),
            },
    {
        proof {
            use_type_invariant(self);
            lemma_assoc_map_lookup(self.page_mapping@);
        }
        match find_usize_pair(&self.page_mapping, global_index) {
            Some(i) => Some(self.page_mapping[i].1),
            None => None,
        }
    }

    /// Records that resource `from` is renamed to `to`, replacing an earlier record.
    pub fn add_resource_remap(&mut self, from: &str, to: &str)
        ensures
            final(self)@.remap == old(self)@.remap.insert(from@, to@),
            final(self)@.sources == old(self)@.sources,
            final(self)@.pages == old(self)@.pages,
            final(self)@.remap.len() == if old(self)@.remap.contains_key(from@) {
                old(self)@.remap.len()
            } else {
                old(self)@.remap.len() + 1
            },
    {
        proof {
            use_type_invariant(&*self);
            lemma_assoc_map_insert_len(text_pairs(self.resource_remap@), from@, to@);
        }
        let ghost before = text_pairs(self.resource_remap@);
        let f = String::from_str(from);
        let t = String::from_str(to);
        match find_text_key(&self.resource_remap, from) {
            Some(i) => {
                proof {
                    lemma_assoc_map_update(before, i as int, to@);
                    assert(text_pairs(self.resource_remap@.update(i as int, (f, t))) =~= before.update(
                        i as int,
                        (before[i as int].0, to@),
                    ));
                }
                let mut v: Vec<(String, String)> = Vec::new();
                std::mem::swap(&mut v, &mut self.resource_remap);
                v.set(i, (f, t));
                self.resource_remap = v;
            },
            None => {
                proof {
                    lemma_assoc_map_push(before, from@, to@);
                    assert(text_pairs(self.resource_remap@.push((f, t))) =~= before.push(
                        (from@, to@),
                    ));
                }
                let mut v: Vec<(String, String)> = Vec::new();
                std::mem::swap(&mut v, &mut self.resource_remap);
                v.push((f, t));
                self.resource_remap = v;
            },
        }
    }

    /// The new path of resource `from`.
    pub fn resource_remap(&self, from: &str) -> (r: Option<&str>)
        ensures
            match r {
                Some(s) => self@.remap.contains_key(from@) && self@.remap[from@] == s@,
                None => !self@.remap.contains_key(from@),
            },
    {
        proof {
            use_type_invariant(self);
            lemma_assoc_map_lookup(text_pairs(self.resource_remap@));
        }
        match find_text_key(&self.resource_remap, from) {
            Some(i) => {
                assert(text_pairs(self.resource_remap@)[i as int].0 == from@);
                Some(self.resource_remap[i].1.as_str())
            },
            None => {
                assert forall|j: int| 0 <= j < text_pairs(self.resource_remap@).len() implies text_pairs(
                    self.resource_remap@,
                )[j].0 != from@ by {
                    assert(self.resource_remap@[j].0@ != from@);
                }
                None
            },
        }
    }

    /// Number of source documents recorded.
    pub fn source_count(&self) -> (r: usize)
        ensures
            r == self@.sources.len(),
    {
        proof {
            use_type_invariant(self);
            lemma_assoc_map_lookup(text_entries(self.source_paths@));
        }
        self.source_paths.len()
    }

    /// Number of output pages recorded.
    pub fn page_count(&self) -> (r: usize)
        ensures
            r == self@.pages.len(),
    {
        proof {
            use_type_invariant(self);
            lemma_assoc_map_lookup(self.page_mapping@);
        }
        self.page_mapping.len()
    }
}

impl Default for DocContext {
    fn default() -> (r: Self)
        ensures
            r@.sources == Map::<usize, Seq<char>>::empty(),
            r@.pages == Map::<usize, (usize, usize)>::empty(),
            r@.remap == Map::<Seq<char>, Seq<char>>::empty(),
    {
        Self::new()
    }
}

/// What is recorded reads back: after `add_source(i, path)` the path of source `i` is
/// `path`; after `add_page_mapping(g, s, p)` output page `g` comes from `(s, p)`; after
/// `add_resource_remap(from, to)` resource `from` is renamed to `to`; and each record leaves
/// the other keys as they were.
pub proof fn lemma_context_reads_back(
    c: DocContextView,
    i: usize,
    path: Seq<char>,
    g: usize,
    sp: (usize, usize),
    from: Seq<char>,
    to: Seq<char>,
    other: usize,
    other_name: Seq<char>,
)
    ensures
        c.sources.insert(i, path).contains_key(i) && c.sources.insert(i, path)[i] == path,
        c.pages.insert(g, sp).contains_key(g) && c.pages.insert(g, sp)[g] == sp,
        c.remap.insert(from, to).contains_key(from) && c.remap.insert(from, to)[from] == to,
        other != i ==> (c.sources.insert(i, path).contains_key(other) == c.sources.contains_key(other) && (
        c.sources.contains_key(other) ==> c.sources.insert(i, path)[other] == c.sources[other])),
        other != g ==> (c.pages.insert(g, sp).contains_key(other) == c.pages.contains_key(other) && (
        c.pages.contains_key(other) ==> c.pages.insert(g, sp)[other] == c.pages[other])),
        other_name != from ==> (c.remap.insert(from, to).contains_key(other_name) == c.remap.contains_key(
            other_name,
        ) && (c.remap.contains_key(other_name) ==> c.remap.insert(from, to)[other_name]
            == c.remap[other_name])),
{
}

} // verus!
