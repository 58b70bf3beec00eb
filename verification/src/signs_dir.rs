//! The signatures directory of a document (`Signs`), holding the `Sign_N` containers and
//! counting the next free index.
use vstd::prelude::*;
use crate::numtext::{decimal_chars, parse_u32_spec, push_decimal};
use crate::paths::{join_path, path_join, remove_all, remove_all_of};
use crate::sign_dir::{SignDir, SIGN_CONTAINER_PREFIX, index_text_of};
use crate::text::chars_of;

verus! {

/// Name of the signature list file.
pub const SIGNATURES_FILE_NAME: &'static str = "Signatures.xml";

/// Name of the container with the given index.
pub open spec fn container_dir_name(index: u32) -> Seq<char> {
    SIGN_CONTAINER_PREFIX@ + decimal_chars(index as nat)
}

/// The index a directory entry name contributes, when it names a container.
pub open spec fn entry_index(name: Seq<char>) -> Option<u32> {
    if name.len() >= SIGN_CONTAINER_PREFIX@.len() && name.subrange(
        0,
        SIGN_CONTAINER_PREFIX@.len() as int,
    ) == SIGN_CONTAINER_PREFIX@ {
        match parse_u32_spec(remove_all(name, SIGN_CONTAINER_PREFIX@)) {
            Ok(n) => Some(n),
            Err(_) => None,
        }
    } else {
        None
    }
}

/// The next free index after scanning entry names in order: an entry whose index is at
/// least the running value moves it to that index plus one.
pub open spec fn next_free_index(names: Seq<Seq<char>>) -> nat
    decreases names.len(),
{
    if names.len() == 0 {
        0
    } else {
        let before = next_free_index(names.drop_last());
        match entry_index(names.last()) {
            Some(n) => if before <= n { (n + 1) as nat } else { before },
            None => before,
        }
    }
}

/// A signatures directory.
#[derive(Debug, Clone)]
pub struct SignsDir {
    /// Path of the directory.
    pub path: String,
    /// The next free container index.
    pub max_sign_index: u32,
}

fn entry_index_of(name: &str) -> (r: Option<u32>)
    ensures
        r == entry_index(name@),
{
    proof {
        reveal_strlit("Sign_");
    }
    let cs = chars_of(name);
    let ps = chars_of(SIGN_CONTAINER_PREFIX);
    if cs.len() < ps.len() {
        return None;
    }
    let mut k: usize = 0;
    while k < ps.len()
        invariant
            k <= ps@.len() <= cs@.len(),
            cs@ == name@,
            ps@ == SIGN_CONTAINER_PREFIX@,
            forall|j: int| 0 <= j < k ==> cs@[j] == ps@[j],
        decreases ps@.len() - k,
    {
        if cs[k] != ps[k] {
            assert(cs@.subrange(0, ps@.len() as int)[k as int] != ps@[k as int]);
            assert(name@.subrange(0, SIGN_CONTAINER_PREFIX@.len() as int) != SIGN_CONTAINER_PREFIX@);
            return None;
        }
        k = k + 1;
    }
    assert(cs@.subrange(0, ps@.len() as int) =~= ps@);
    let rest = remove_all_of(name, SIGN_CONTAINER_PREFIX);
    match crate::numtext::parse_u32(rest.as_str()) {
        Ok(n) => Some(n),
        Err(_) => None,
    }
}

impl SignsDir {
    /// A directory at `path` with no containers yet.
    pub fn new(path: &str) -> (r: Self)
        ensures
            r.path@ == path@,
            r.max_sign_index == 0,
    {
        SignsDir { path: String::from_str(path), max_sign_index: 0 }
    }

    /// A directory at `path` whose entries have the given names, in listing order; the
    /// next free index follows the containers found.
    pub fn from_entry_names(path: &str, names: &[String]) -> (r: Self)
        requires
            forall|i: int| 0 <= i < names@.len() ==> entry_index(#[trigger] names@[i]@) != Some(
                u32::MAX,
            ),
        ensures
            r.path@ == path@,
            r.max_sign_index == next_free_index(names@.map_values(|n: String| n@)),
    {
        let ghost all = names@.map_values(|n: String| n@);
        let mut max_index: u32 = 0;
        let mut i: usize = 0;
        while i < names.len()
            invariant
                i <= names@.len(),
                all == names@.map_values(|n: String| n@),
                forall|j: int| 0 <= j < names@.len() ==> entry_index(#[trigger] names@[j]@) != Some(
                    u32::MAX,
                ),
                max_index == next_free_index(all.take(i as int)),
            decreases names@.len() - i,
        {
            assert(all.take(i + 1).drop_last() == all.take(i as int));
            assert(all.take(i + 1).last() == names@[i as int]@);
            if let Some(num) = entry_index_of(names[i].as_str()) {
                if max_index <= num {
                    max_index = num + 1;
                }
            }
            i = i + 1;
        }
        assert(all.take(names@.len() as int) == all);
        SignsDir { path: String::from_str(path), max_sign_index: max_index }
    }

    /// Path of the signature list file.
    pub fn signatures_path(&self) -> (r: String)
        ensures
            r@ == path_join(self.path@, SIGNATURES_FILE_NAME@),
    {
        join_path(self.path.as_str(), SIGNATURES_FILE_NAME)
    }

    fn container_path(&self, index: u32) -> (r: String)
        ensures
            r@ == path_join(self.path@, container_dir_name(index)),
    {
        let mut name = String::from_str(SIGN_CONTAINER_PREFIX);
        push_decimal(&mut name, index);
        join_path(self.path.as_str(), name.as_str())
    }

    /// A new container at the next free index, which moves on by one.
    pub fn new_sign_dir(&mut self) -> (r: SignDir)
        requires
            old(self).max_sign_index < u32::MAX,
        ensures
            final(self).path == old(self).path,
            final(self).max_sign_index == old(self).max_sign_index + 1,
            r.path@ == path_join(old(self).path@, container_dir_name(old(self).max_sign_index)),
            r.index_str@ == index_text_of(r.path@),
    {
        let p = self.container_path(self.max_sign_index);
        self.max_sign_index = self.max_sign_index + 1;
        SignDir::new(p.as_str())
    }

    /// The container with the given index.
    pub fn get_by_index(&self, index: u32) -> (r: SignDir)
        ensures
            r.path@ == path_join(self.path@, container_dir_name(index)),
            r.index_str@ == index_text_of(r.path@),
    {
        let p = self.container_path(index);
        SignDir::new(p.as_str())
    }

    /// Number of containers handed out so far (the next free index).
    pub fn sign_count(&self) -> (r: u32)
        ensures
            r == self.max_sign_index,
    {
        self.max_sign_index
    }
}

} // verus!
