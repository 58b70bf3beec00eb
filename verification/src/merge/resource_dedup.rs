//! Shared resources of a merge, keyed by content digest so that equal files are stored once.
use vstd::prelude::*;
use crate::assoc::{assoc_map, distinct_keys, lemma_assoc_map_insert_len, lemma_assoc_map_lookup, lemma_assoc_map_push, lemma_assoc_map_update};
use crate::internal_helpers::{compute_sm3, hex, hex_text, sm3_digest};
use crate::merge::doc_context::text_pairs;
use crate::numtext::{decimal_chars, push_usize};
use crate::text::{push_str, str_eq};

verus! {

/// Resource files by digest, with a counter for naming new ones.
#[derive(Debug)]
pub struct ResourceDedup {
    hash_to_path: Vec<(String, String)>,
    counter: usize,
}

impl View for ResourceDedup {
    /// Stored path by digest text, and the counter.
    type V = (Map<Seq<char>, Seq<char>>, usize);

    closed spec fn view(&self) -> (Map<Seq<char>, Seq<char>>, usize) {
        (assoc_map(text_pairs(self.hash_to_path@)), self.counter)
    }
}

/// The name given to the `n`-th new resource with the given extension text (with its dot,
/// or empty).
pub open spec fn resource_name(n: nat, ext: Seq<char>) -> Seq<char> {
    decimal_chars(n) + ext
}

fn find_hash(v: &Vec<(String, String)>, k: &str) -> (r: Option<usize>)
    ensures
        match r {
            Some(i) => i < v@.len() && v@[i as int].0@ == k@,
            None => forall|i: int| 0 <= i < v@.len() ==> v@[i].0@ != k@,
        },
{
    let mut i: usize = 0;
    while i < v.len()
        invariant
            i <= v@.len(),
            forall|j: int| 0 <= j < i ==> v@[j].0@ != k@,
        decreases v@.len() - i,
    {
        if str_eq(v[i].0.as_str(), k) {
            return Some(i);
        }
        i = i + 1;
    }
    None
}

impl ResourceDedup {
    #[verifier::type_invariant]
    spec fn keys_distinct(self) -> bool {
        distinct_keys(text_pairs(self.hash_to_path@))
    }

    /// No resources, counter at 0.
    pub fn new() -> (r: Self)
        ensures
            r@.0 == Map::<Seq<char>, Seq<char>>::empty(),
            r@.1 == 0,
    {
        let r = ResourceDedup { hash_to_path: Vec::new(), counter: 0 };
        assert(text_pairs(r.hash_to_path@) =~= Seq::empty());
        r
    }

    /// Lower-case hexadecimal SM3 digest of `data`.
    pub fn compute_hash(data: &[u8]) -> (r: String)
        ensures
            r@ == hex_text(sm3_digest(data@)),
    {
        let d = compute_sm3(data);
        hex(&d)
    }

    /// The stored path for a digest.
    pub fn get_by_hash(&self, hash: &str) -> (r: Option<&str>)
        ensures
            match r {
                Some(s) => self@.0.contains_key(hash@) && self@.0[hash@] == s@,
                None => !self@.0.contains_key(hash@),
            },
    {
        proof {
            use_type_invariant(self);
            lemma_assoc_map_lookup(text_pairs(self.hash_to_path@));
        }
        match find_hash(&self.hash_to_path, hash) {
            Some(i) => {
                assert(text_pairs(self.hash_to_path@)[i as int].0 == hash@);
                Some(self.hash_to_path[i].1.as_str())
            },
            None => {
                assert forall|j: int| 0 <= j < text_pairs(self.hash_to_path@).len() implies text_pairs(
                    self.hash_to_path@,
                )[j].0 != hash@ by {
                    assert(self.hash_to_path@[j].0@ != hash@);
                }
                None
            },
        }
    }

    /// Number of distinct digests stored.
    pub fn len(&self) -> (r: usize)
        ensures
            r == self@.0.len(),
    {
        proof {
            use_type_invariant(self);
            lemma_assoc_map_lookup(text_pairs(self.hash_to_path@));
        }
        self.hash_to_path.len()
    }

    /// Whether nothing is stored.
    pub fn is_empty(&self) -> (r: bool)
        ensures
            r == (self@.0.len() == 0),
    {
        proof {
            use_type_invariant(self);
            lemma_assoc_map_lookup(text_pairs(self.hash_to_path@));
        }
        self.hash_to_path.len() == 0
    }

    /// The counter.
    pub fn counter(&self) -> (r: usize)
        ensures
            r == self@.1,
    {
        self.counter
    }

    fn remember(&mut self, hash: String, path: String)
        ensures
            final(self)@.0 == old(self)@.0.insert(hash@, path@),
            final(self)@.1 == old(self)@.1,
    {
        proof {
            use_type_invariant(&*self);
        }
        let ghost before = text_pairs(self.hash_to_path@);
        let ghost hv = hash@;
        let ghost pv = path@;
        match find_hash(&self.hash_to_path, hash.as_str()) {
            Some(i) => {
                proof {
                    lemma_assoc_map_update(before, i as int, pv);
                    assert(text_pairs(self.hash_to_path@.update(i as int, (hash, path))) =~= before.update(
                        i as int,
                        (before[i as int].0, pv),
                    ));
                }
                let mut v: Vec<(String, String)> = Vec::new();
                std::mem::swap(&mut v, &mut self.hash_to_path);
                v.set(i, (hash, path));
                self.hash_to_path = v;
            },
            None => {
                proof {
                    lemma_assoc_map_push(before, hv, pv);
                    assert(text_pairs(self.hash_to_path@.push((hash, path))) =~= before.push((hv, pv)));
                }
                let mut v: Vec<(String, String)> = Vec::new();
                std::mem::swap(&mut v, &mut self.hash_to_path);
                v.push((hash, path));
                self.hash_to_path = v;
            },
        }
    }

    /// Stores `path` for `hash` and moves the counter on.
    pub fn register(&mut self, hash: String, path: String)
        requires
            old(self)@.1 < usize::MAX,
        ensures
            final(self)@.0 == old(self)@.0.insert(hash@, path@),
            final(self)@.1 == old(self)@.1 + 1,
            final(self)@.0.len() == if old(self)@.0.contains_key(hash@) {
                old(self)@.0.len()
            } else {
                old(self)@.0.len() + 1
            },
    {
        proof {
            use_type_invariant(&*self);
            lemma_assoc_map_insert_len(text_pairs(self.hash_to_path@), hash@, path@);
        }
        self.counter = self.counter + 1;
        self.remember(hash, path);
    }

    /// Where a resource with digest `hash` goes: the stored name and `false` when the digest
    /// is known; otherwise the counter moves on, the new name (counter and extension) is
    /// stored, and `true` says the file has to be written.
    pub fn reuse_or_assign(&mut self, hash: &str, extension: &str) -> (r: (String, bool))
        requires
            old(self)@.1 < usize::MAX,
        ensures
            old(self)@.0.contains_key(hash@) ==> {
                &&& r.1 == false
                &&& r.0@ == old(self)@.0[hash@]
                &&& final(self)@ == old(self)@
            },
            !old(self)@.0.contains_key(hash@) ==> {
                &&& r.1 == true
                &&& r.0@ == resource_name((old(self)@.1 + 1) as nat, extension@)
                &&& final(self)@.1 == old(self)@.1 + 1
                &&& final(self)@.0 == old(self)@.0.insert(hash@, r.0@)
                &&& final(self)@.0.len() == old(self)@.0.len() + 1
            },
    {
        if let Some(existing) = self.get_by_hash(hash) {
            return (String::from_str(existing), false);
        }
        proof {
            use_type_invariant(&*self);
        }
        self.counter = self.counter + 1;
        let mut name = String::new();
        push_usize(&mut name, self.counter);
        push_str(&mut name, extension);
        let stored = name.clone();
        proof {
            lemma_assoc_map_insert_len(text_pairs(self.hash_to_path@), hash@, stored@);
        }
        self.remember(String::from_str(hash), stored);
        (name, true)
    }
}


impl Default for ResourceDedup {
    fn default() -> (r: Self)
        ensures
            r@.0 == Map::<Seq<char>, Seq<char>>::empty(),
            r@.1 == 0,
    {
        Self::new()
    }
}

/// A resource is stored once: after `reuse_or_assign` gives a new name for a digest, the
/// table holds that name for the digest, so every later call with the same digest gives
/// that name back and changes nothing, whatever extension it passes.
pub proof fn lemma_stored_once(table: Map<Seq<char>, Seq<char>>, counter: usize, hash: Seq<char>, ext: Seq<char>)
    requires
        !table.contains_key(hash),
    ensures
        table.insert(hash, resource_name((counter + 1) as nat, ext)).contains_key(hash),
        table.insert(hash, resource_name((counter + 1) as nat, ext))[hash] == resource_name(
            (counter + 1) as nat,
            ext,
        ),
{
}

} // verus!
