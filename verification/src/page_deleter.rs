//! Deleting pages from a document: the pages chosen, without repeats, in the order chosen,
//! are taken out of the page list of `Doc_0/Document.xml`, and the files of their page
//! directories out of the package.
use vstd::prelude::*;
use crate::archive::{entries_view, entry_lookup, lookup_entry, read_zip_entries, write_zip_entries};
use crate::archive::{zip_archive, zip_entries, EntryView};
use crate::multi::{between, extract_between, lemma_find_from_bounds};
use crate::paths::{last_slash, lemma_last_slash_bounds};
use crate::text::{chars_of, find_chars, find_from, matches_at, matches_at_exec, push_str, str_eq};
use crate::text::{string_bytes, substring_of, utf8_decode};

verus! {

/// Where the document's page list is kept.
pub open spec fn document_path() -> Seq<char> {
    "Doc_0/Document.xml"@
}

/// Page `idx` (counted from 0) is among the pages to delete.
pub open spec fn is_listed(del: Seq<usize>, idx: int) -> bool {
    exists|k: int| 0 <= k < del.len() && del[k] as int == idx
}

/// The directory of a page's `BaseLoc` (the part up to its last `/`), or the location itself
/// when it has no `/`.
pub open spec fn base_dir(loc: Seq<char>) -> Seq<char> {
    if last_slash(loc) >= 0 {
        loc.subrange(0, last_slash(loc) + 1)
    } else {
        loc
    }
}

/// The package path prefix of the files of a page element: `Doc_0/` and the directory of its
/// non-empty `BaseLoc` attribute; `None` when the element has no such attribute.
pub open spec fn page_files_prefix(element: Seq<char>) -> Option<Seq<char>> {
    match between(element, "BaseLoc=\""@, "\""@) {
        Some(loc) => if loc.len() > 0 {
            Some("Doc_0/"@ + base_dir(loc))
        } else {
            None
        },
        None => None,
    }
}

/// The page list edited from position `pos` on, where the next page element is page `idx`:
/// each page element (from `<ofd:Page ` to the next `/>`) that is listed is cut out, the
/// rest of the text is kept; with the prefixes of the files of the pages cut out, in order.
pub open spec fn page_edit(t: Seq<char>, pos: int, idx: int, del: Seq<usize>) -> (Seq<char>, Seq<Seq<char>>)
    decreases t.len() - pos,
{
    if pos < 0 || pos > t.len() {
        (Seq::empty(), Seq::empty())
    } else {
        match find_from(t, "<ofd:Page "@, pos) {
            None => (t.subrange(pos, t.len() as int), Seq::empty()),
            Some(p) => match find_from(t, "/>"@, p) {
                None => (t.subrange(pos, t.len() as int), Seq::empty()),
                Some(q) => {
                    proof {
                        lemma_find_from_bounds(t, "<ofd:Page "@, pos);
                        lemma_find_from_bounds(t, "/>"@, p);
                        reveal_strlit("/>");
                    }
                    let end = q + 2;
                    let rest = page_edit(t, end, idx + 1, del);
                    if is_listed(del, idx) {
                        let found = match page_files_prefix(t.subrange(p, end)) {
                            Some(d) => seq![d],
                            None => Seq::empty(),
                        };
                        (t.subrange(pos, p) + rest.0, found + rest.1)
                    } else {
                        (t.subrange(pos, end) + rest.0, rest.1)
                    }
                },
            },
        }
    }
}

/// `name` lies under one of the prefixes.
pub open spec fn under_any(name: Seq<char>, prefixes: Seq<Seq<char>>) -> bool {
    exists|k: int| 0 <= k < prefixes.len() && matches_at(name, prefixes[k], 0)
}

/// The entries after deletion, in order: the document file gets the edited bytes, the files
/// under a deleted page's directory are left out, the others are kept.
pub open spec fn edited_entries(es: Seq<EntryView>, doc: Seq<u8>, prefixes: Seq<Seq<char>>) -> Seq<EntryView>
    decreases es.len(),
{
    if es.len() == 0 {
        Seq::empty()
    } else {
        let head = edited_entries(es.drop_last(), doc, prefixes);
        let e = es.last();
        if e.0 == document_path() {
            head.push((e.0, doc))
        } else if under_any(e.0, prefixes) {
            head
        } else {
            head.push(e)
        }
    }
}

/// The entries of the package `input` once the pages `del` are deleted, or the error message.
pub open spec fn deleted_entries(input: Seq<u8>, del: Seq<usize>) -> Result<Seq<EntryView>, Seq<char>> {
    if del.len() == 0 {
        Err("没有指定要删除的页面"@)
    } else {
        match zip_entries(input) {
            None => Err("无法读取 OFD 文档"@),
            Some(es) => match entry_lookup(es, document_path()) {
                None => Err("缺少 Doc_0/Document.xml"@),
                Some(b) => if !vstd::utf8::valid_utf8(b) {
                    Err("Doc_0/Document.xml 不是 UTF-8 文本"@)
                } else {
                    let (t, prefixes) = page_edit(vstd::utf8::decode_utf8(b), 0, 0, del);
                    Ok(edited_entries(es, vstd::utf8::encode_utf8(t), prefixes))
                },
            },
        }
    }
}

/// The package `input` with the pages `del` deleted, or the error message.
pub open spec fn deleted_document(input: Seq<u8>, del: Seq<usize>) -> Result<Seq<u8>, Seq<char>> {
    match deleted_entries(input, del) {
        Err(m) => Err(m),
        Ok(out) => match zip_archive(out) {
            None => Err("无法写出 OFD 文档"@),
            Some(z) => Ok(z),
        },
    }
}

/// The views of a list of strings.
pub open spec fn strings_view(v: Seq<String>) -> Seq<Seq<char>> {
    v.map_values(|s: String| s@)
}

fn base_dir_of(loc: &[char]) -> (r: String)
    ensures
        r@ == base_dir(loc@),
{
    proof {
        lemma_last_slash_bounds(loc@);
    }
    let mut i = loc.len();
    while i > 0
        invariant
            i <= loc@.len(),
            forall|k: int| i <= k < loc@.len() ==> loc@[k] != '/',
        decreases i,
    {
        if loc[i - 1] == '/' {
            proof {
                lemma_last_slash_bounds(loc@);
                let ls = last_slash(loc@);
                assert(loc@[i - 1] == '/');
                if ls >= i {
                    assert(loc@[ls] == '/');
                }
            }
            assert(last_slash(loc@) == i - 1);
            return substring_of(loc, 0, i);
        }
        i = i - 1;
    }
    proof {
        let ls = last_slash(loc@);
        if ls >= 0 {
            assert(loc@[ls] == '/');
        }
    }
    assert(last_slash(loc@) == -1);
    substring_of(loc, 0, loc.len())
}

fn page_files_prefix_of(element: &str) -> (r: Option<String>)
    ensures
        match page_files_prefix(element@) {
            Some(d) => r matches Some(s) && s@ == d,
            None => r is None,
        },
{
    match extract_between(element, "BaseLoc=\"", "\"") {
        Some(loc) => {
            let cs = chars_of(loc.as_str());
            if cs.len() == 0 {
                return None;
            }
            let mut d = String::from_str("Doc_0/");
            let b = base_dir_of(cs.as_slice());
            push_str(&mut d, b.as_str());
            Some(d)
        },
        None => None,
    }
}

fn listed(del: &[usize], idx: usize) -> (b: bool)
    ensures
        b == is_listed(del@, idx as int),
{
    let mut k: usize = 0;
    while k < del.len()
        invariant
            k <= del@.len(),
            forall|j: int| 0 <= j < k ==> del@[j] != idx,
        decreases del@.len() - k,
    {
        if del[k] == idx {
            return true;
        }
        k = k + 1;
    }
    false
}

/// The page list `t` with the pages `del` cut out, and the path prefixes of their files.
pub fn edit_page_list(t: &str, del: &[usize]) -> (r: (String, Vec<String>))
    ensures
        r.0@ == page_edit(t@, 0, 0, del@).0,
        strings_view(r.1@) == page_edit(t@, 0, 0, del@).1,
{
    let cs = chars_of(t);
    let n = cs.len();
    let open_tag = chars_of("<ofd:Page ");
    let close_tag = chars_of("/>");
    let mut pos: usize = 0;
    let mut idx: usize = 0;
    let mut out = String::new();
    let mut dirs: Vec<String> = Vec::new();
    let ghost whole = page_edit(t@, 0, 0, del@);
    assert(out@ + page_edit(t@, 0, 0, del@).0 =~= whole.0);
    assert(strings_view(dirs@) + page_edit(t@, 0, 0, del@).1 =~= whole.1);
    loop
        invariant_except_break
            pos <= n,
            idx <= pos,
            n == cs@.len(),
            cs@ == t@,
            open_tag@ == "<ofd:Page "@,
            close_tag@ == "/>"@,
            whole == page_edit(t@, 0, 0, del@),
            out@ + page_edit(t@, pos as int, idx as int, del@).0 == whole.0,
            strings_view(dirs@) + page_edit(t@, pos as int, idx as int, del@).1 == whole.1,
        ensures
            out@ == whole.0,
            strings_view(dirs@) == whole.1,
        decreases n - pos,
    {
        let ghost cur = page_edit(t@, pos as int, idx as int, del@);
        let p = match find_chars(cs.as_slice(), open_tag.as_slice(), pos) {
            Some(p) => p,
            None => {
                let rest = substring_of(cs.as_slice(), pos, n);
                push_str(&mut out, rest.as_str());
                assert(strings_view(dirs@) + cur.1 =~= strings_view(dirs@));
                break;
            },
        };
        proof {
            lemma_find_from_bounds(cs@, open_tag@, pos as int);
        }
        let q = match find_chars(cs.as_slice(), close_tag.as_slice(), p) {
            Some(q) => q,
            None => {
                let rest = substring_of(cs.as_slice(), pos, n);
                push_str(&mut out, rest.as_str());
                assert(strings_view(dirs@) + cur.1 =~= strings_view(dirs@));
                break;
            },
        };
        proof {
            lemma_find_from_bounds(cs@, close_tag@, p as int);
            reveal_strlit("/>");
        }
        let end = q + 2;
        let ghost next = page_edit(t@, end as int, idx + 1, del@);
        let ghost before_out = out@;
        let ghost before_dirs = strings_view(dirs@);
        if listed(del, idx) {
            let head = substring_of(cs.as_slice(), pos, p);
            push_str(&mut out, head.as_str());
            let el = substring_of(cs.as_slice(), p, end);
            match page_files_prefix_of(el.as_str()) {
                Some(d) => {
                    dirs.push(d);
                    assert(strings_view(dirs@) =~= before_dirs.push(d@));
                },
                None => {},
            }
            assert(out@ + next.0 =~= before_out + cur.0);
            assert(strings_view(dirs@) + next.1 =~= before_dirs + cur.1);
        } else {
            let head = substring_of(cs.as_slice(), pos, end);
            push_str(&mut out, head.as_str());
            assert(out@ + next.0 =~= before_out + cur.0);
            assert(strings_view(dirs@) + next.1 =~= before_dirs + cur.1);
        }
        pos = end;
        idx = idx + 1;
    }
    (out, dirs)
}

fn under_any_of(name: &str, prefixes: &[String]) -> (b: bool)
    ensures
        b == under_any(name@, strings_view(prefixes@)),
{
    let cs = chars_of(name);
    let mut k: usize = 0;
    while k < prefixes.len()
        invariant
            k <= prefixes@.len(),
            cs@ == name@,
            forall|j: int| 0 <= j < k ==> !matches_at(name@, #[trigger] prefixes@[j]@, 0),
        decreases prefixes@.len() - k,
    {
        let pc = chars_of(prefixes[k].as_str());
        if pc.len() <= cs.len() && matches_at_exec(cs.as_slice(), pc.as_slice(), 0) {
            assert(strings_view(prefixes@)[k as int] == prefixes@[k as int]@);
            return true;
        }
        k = k + 1;
    }
    assert forall|j: int| 0 <= j < strings_view(prefixes@).len() implies !matches_at(
        name@,
        #[trigger] strings_view(prefixes@)[j],
        0,
    ) by {
        assert(strings_view(prefixes@)[j] == prefixes@[j]@);
    }
    false
}

fn copy_bytes(b: &[u8]) -> (r: Vec<u8>)
    ensures
        r@ == b@,
{
    let mut v: Vec<u8> = Vec::new();
    crate::der_tlv::extend_bytes(&mut v, b);
    v
}

/// The entries with the document file replaced by `doc` and the files under the prefixes
/// left out.
pub fn edit_entries(entries: &[(String, Vec<u8>)], doc: &[u8], prefixes: &[String]) -> (r: Vec<(String, Vec<u8>)>)
    ensures
        entries_view(r@) == edited_entries(entries_view(entries@), doc@, strings_view(prefixes@)),
{
    let ghost es = entries_view(entries@);
    let ghost pv = strings_view(prefixes@);
    let mut out: Vec<(String, Vec<u8>)> = Vec::new();
    let mut i: usize = 0;
    assert(entries_view(out@) =~= edited_entries(es.take(0), doc@, pv));
    while i < entries.len()
        invariant
            i <= entries@.len(),
            es == entries_view(entries@),
            pv == strings_view(prefixes@),
            entries_view(out@) == edited_entries(es.take(i as int), doc@, pv),
        decreases entries@.len() - i,
    {
        assert(es.take(i + 1).drop_last() == es.take(i as int));
        assert(es.take(i + 1).last() == (entries@[i as int].0@, entries@[i as int].1@));
        let ghost prev = entries_view(out@);
        let name = entries[i].0.as_str();
        if str_eq(name, "Doc_0/Document.xml") {
            let x = (String::from_str(name), copy_bytes(doc));
            out.push(x);
            assert(entries_view(out@) =~= prev.push((name@, doc@)));
        } else if under_any_of(name, prefixes) {
        } else {
            let x = (String::from_str(name), copy_bytes(entries[i].1.as_slice()));
            out.push(x);
            assert(entries_view(out@) =~= prev.push((name@, entries@[i as int].1@)));
        }
        i = i + 1;
    }
    assert(es.take(es.len() as int) == es);
    out
}

/// A page deletion job.
#[derive(Debug)]
pub struct OfdPageDeleter {
    input_path: String,
    output_path: String,
    pages_to_delete: Vec<usize>,
}

/// The job's input path, output path and chosen pages.
pub struct OfdPageDeleterView {
    /// The document read.
    pub input: Seq<char>,
    /// The document written.
    pub output: Seq<char>,
    /// The pages to delete, in the order chosen.
    pub pages: Seq<usize>,
}

impl View for OfdPageDeleter {
    type V = OfdPageDeleterView;

    closed spec fn view(&self) -> OfdPageDeleterView {
        OfdPageDeleterView {
            input: self.input_path@,
            output: self.output_path@,
            pages: self.pages_to_delete@,
        }
    }
}

impl OfdPageDeleter {
    #[verifier::type_invariant]
    spec fn no_repeats(self) -> bool {
        self.pages_to_delete@.no_duplicates()
    }

    /// A job reading `input_path` and writing `output_path`, with no page chosen.
    pub fn new(input_path: &str, output_path: &str) -> (r: Self)
        ensures
            r@.input == input_path@,
            r@.output == output_path@,
            r@.pages == Seq::<usize>::empty(),
    {
        let r = OfdPageDeleter {
            input_path: String::from_str(input_path),
            output_path: String::from_str(output_path),
            pages_to_delete: Vec::new(),
        };
        assert(r.pages_to_delete@.no_duplicates());
        r
    }

    /// Chooses a page to delete; choosing it again changes nothing.
    pub fn delete_page(&mut self, page_index: usize)
        ensures
            final(self)@.input == old(self)@.input,
            final(self)@.output == old(self)@.output,
            final(self)@.pages == if old(self)@.pages.contains(page_index) {
                old(self)@.pages
            } else {
                old(self)@.pages.push(page_index)
            },
    {
        proof {
            use_type_invariant(&*self);
        }
        let mut i: usize = 0;
        while i < self.pages_to_delete.len()
            invariant
                i <= self.pages_to_delete@.len(),
                forall|k: int| 0 <= k < i ==> self.pages_to_delete@[k] != page_index,
            decreases self.pages_to_delete@.len() - i,
        {
            if self.pages_to_delete[i] == page_index {
                return;
            }
            i = i + 1;
        }
        let ghost before = self.pages_to_delete@;
        let mut v: Vec<usize> = Vec::new();
        std::mem::swap(&mut v, &mut self.pages_to_delete);
        v.push(page_index);
        assert(v@.no_duplicates()) by {
            assert(v@ == before.push(page_index));
            assert forall|a: int, b: int| 0 <= a < b < v@.len() implies v@[a] != v@[b] by {
                if b == before.len() {
                    assert(before[a] != page_index);
                }
            }
        }
        self.pages_to_delete = v;
    }

    /// Runs the job on the package `input` (the bytes of the document at the input path):
    /// refused when no page is chosen; otherwise the package with each chosen page (counted
    /// from 0 in the page list of `Doc_0/Document.xml`) taken out of that list and the files
    /// of its page directory taken out of the package; chosen numbers past the last page
    /// change nothing.
    pub fn execute(&self, input: &[u8]) -> (r: Result<Vec<u8>, String>)
        ensures
            match deleted_document(input@, self@.pages) {
                Ok(z) => r matches Ok(b) && b@ == z,
                Err(m) => r matches Err(e) && e@ == m,
            },
            r matches Ok(b) ==> deleted_entries(input@, self@.pages) matches Ok(out) && zip_entries(b@)
                == Some(out),
    {
        if self.pages_to_delete.len() == 0 {
            return Err(String::from_str("没有指定要删除的页面"));
        }
        let entries = match read_zip_entries(input) {
            Ok(e) => e,
            Err(_) => return Err(String::from_str("无法读取 OFD 文档")),
        };
        let doc = match lookup_entry(entries.as_slice(), "Doc_0/Document.xml") {
            Some(d) => d,
            None => return Err(String::from_str("缺少 Doc_0/Document.xml")),
        };
        let text = match utf8_decode(doc.as_slice()) {
            Some(t) => t,
            None => return Err(String::from_str("Doc_0/Document.xml 不是 UTF-8 文本")),
        };
        let (edited, prefixes) = edit_page_list(text.as_str(), self.pages_to_delete.as_slice());
        let bytes = string_bytes(edited.as_str());
        let out = edit_entries(entries.as_slice(), bytes.as_slice(), prefixes.as_slice());
        match write_zip_entries(out.as_slice()) {
            Ok(b) => Ok(b),
            Err(_) => Err(String::from_str("无法写出 OFD 文档")),
        }
    }

    /// The document read.
    pub fn input_path(&self) -> (r: &str)
        ensures
            r@ == self@.input,
    {
        self.input_path.as_str()
    }

    /// The document written.
    pub fn output_path(&self) -> (r: &str)
        ensures
            r@ == self@.output,
    {
        self.output_path.as_str()
    }

    /// The pages chosen.
    pub fn pages_to_delete(&self) -> (r: &[usize])
        ensures
            r@ == self@.pages,
    {
        self.pages_to_delete.as_slice()
    }
}

} // verus!
