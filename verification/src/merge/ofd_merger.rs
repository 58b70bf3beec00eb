//! The merger: which sources and pages go into the merged document, the check of that plan
//! against what each source holds, the names of shared images, and the new document's id.
use vstd::prelude::*;
use crate::internal_helpers::{hex_text, sm3_digest};
use crate::merge::bare_ofd_doc::BareOFDDoc;
use crate::merge::doc_context::DocContext;
use crate::merge::page_entry::PageEntry;
use crate::merge::resource_dedup::ResourceDedup;
use crate::numtext::{decimal_chars, push_usize};
use crate::text::{push_char, push_str};

verus! {

/// What reading a source document gave.
pub enum SourceLoad {
    /// The file could not be read; the reason.
    ReadFailed(String),
    /// The bytes are not a document; the reason.
    ParseFailed(String),
    /// A document with this many pages.
    Loaded(usize),
}

/// One output page: page `page_index` (from 0) of source `source_index`, with the pages
/// (source, page from 0) whose content is laid over it, in order.
pub struct PlannedPage {
    /// Index of the source document.
    pub source_index: usize,
    /// Page of the source document, from 0.
    pub page_index: usize,
    /// Pages whose content is appended to this one.
    pub mix_pages: Vec<(usize, usize)>,
}

impl View for PlannedPage {
    type V = (usize, usize, Seq<(usize, usize)>);

    open spec fn view(&self) -> (usize, usize, Seq<(usize, usize)>) {
        (self.source_index, self.page_index, self.mix_pages@)
    }
}

/// The merger.
pub struct OfdMerger {
    output_path: String,
    sources: Vec<BareOFDDoc>,
    pages: Vec<(usize, usize)>,
    page_entries: Vec<PageEntry>,
    context: DocContext,
    dedup: ResourceDedup,
}

/// What a merger holds: the output path, the sources (path, page count) by index, the pages
/// added by index pair (source, page from 0), the page entries (source, page from 1, and
/// the (source, page from 1) of each page laid over it), and the image table.
pub struct OfdMergerView {
    pub output_path: Seq<char>,
    pub sources: Seq<(Seq<char>, usize)>,
    pub pages: Seq<(usize, usize)>,
    pub entries: Seq<(usize, usize, Seq<(usize, usize)>)>,
    pub resources: (Map<Seq<char>, Seq<char>>, usize),
}

/// What the merge reads of a page entry.
pub open spec fn entry_plan(e: PageEntry) -> (usize, usize, Seq<(usize, usize)>) {
    (e.doc_ctx_index, e.page_index, e.tb_mix_pages@.map_values(|m: PageEntry| (m.doc_ctx_index, m.page_index)))
}

impl View for OfdMerger {
    type V = OfdMergerView;

    closed spec fn view(&self) -> OfdMergerView {
        OfdMergerView {
            output_path: self.output_path@,
            sources: self.sources@.map_values(|d: BareOFDDoc| d@),
            pages: self.pages@,
            entries: self.page_entries@.map_values(|e: PageEntry| entry_plan(e)),
            resources: self.dedup@,
        }
    }
}

/// Source paths by index.
pub open spec fn source_map(s: Seq<(Seq<char>, usize)>) -> Map<usize, Seq<char>> {
    Map::new(|i: usize| i < s.len(), |i: usize| s[i as int].0)
}

/// Added pages by their position.
pub open spec fn page_map(p: Seq<(usize, usize)>) -> Map<usize, (usize, usize)> {
    Map::new(|i: usize| i < p.len(), |i: usize| p[i as int])
}

/// The path of source `i` as messages name it.
pub open spec fn source_name(sources: Seq<(Seq<char>, usize)>, i: usize) -> Seq<char> {
    if i < sources.len() {
        sources[i as int].0
    } else {
        "未知"@
    }
}

/// Why page `page0` (from 0) of source `i` cannot be taken, or nothing when it can.
pub open spec fn load_check(sources: Seq<(Seq<char>, usize)>, loads: Seq<SourceLoad>, i: usize, page0: usize) -> Option<Seq<char>> {
    if i >= sources.len() {
        Some("源文档索引 "@ + decimal_chars(i as nat) + " 未注册"@)
    } else {
        let path = sources[i as int].0;
        match loads[i as int] {
            SourceLoad::ReadFailed(e) => Some("读取源文档 '"@ + path + "' 失败: "@ + e@),
            SourceLoad::ParseFailed(e) => Some("解析源文档 '"@ + path + "' 失败: "@ + e@),
            SourceLoad::Loaded(n) => if page0 >= n {
                Some(
                    "源文档 '"@ + path + "' 页码越界：请求第 "@ + decimal_chars((page0 + 1) as nat) + " 页，但文档共 "@
                        + decimal_chars(n as nat) + " 页"@,
                )
            } else {
                None
            },
        }
    }
}

/// Why a page laid over another cannot be taken, or nothing.
pub open spec fn mix_check(sources: Seq<(Seq<char>, usize)>, loads: Seq<SourceLoad>, m: (usize, usize)) -> Option<Seq<char>> {
    if m.1 == 0 {
        Some("源文档 '"@ + source_name(sources, m.0) + "' 的混合页码不能为 0（PageEntry 页码从 1 开始）"@)
    } else {
        load_check(sources, loads, m.0, (m.1 - 1) as usize)
    }
}

/// The first reason in a list, or nothing.
pub open spec fn first_error(errs: Seq<Option<Seq<char>>>) -> Option<Seq<char>>
    decreases errs.len(),
{
    if errs.len() == 0 {
        None
    } else if errs[0] is Some {
        errs[0]
    } else {
        first_error(errs.skip(1))
    }
}

/// The reasons for each page laid over another.
pub open spec fn mix_checks(sources: Seq<(Seq<char>, usize)>, loads: Seq<SourceLoad>, ms: Seq<(usize, usize)>) -> Seq<Option<Seq<char>>> {
    ms.map_values(|m: (usize, usize)| mix_check(sources, loads, m))
}

/// Why a page entry cannot be taken: its own page number, its page, then the pages laid
/// over it in order; or nothing.
pub open spec fn entry_check(sources: Seq<(Seq<char>, usize)>, loads: Seq<SourceLoad>, e: (usize, usize, Seq<(usize, usize)>)) -> Option<Seq<char>> {
    if e.1 == 0 {
        Some("源文档 '"@ + source_name(sources, e.0) + "' 的页码不能为 0（PageEntry 页码从 1 开始）"@)
    } else {
        match load_check(sources, loads, e.0, (e.1 - 1) as usize) {
            Some(m) => Some(m),
            None => first_error(mix_checks(sources, loads, e.2)),
        }
    }
}

/// Pages laid over another, their page numbers counted from 0.
pub open spec fn mixes_planned(ms: Seq<(usize, usize)>) -> Seq<(usize, usize)> {
    ms.map_values(|m: (usize, usize)| (m.0, (m.1 - 1) as usize))
}

/// A page entry as an output page, its page numbers counted from 0.
pub open spec fn planned_entry(e: (usize, usize, Seq<(usize, usize)>)) -> (usize, usize, Seq<(usize, usize)>) {
    (e.0, (e.1 - 1) as usize, mixes_planned(e.2))
}

/// The reasons for each added page.
pub open spec fn page_checks(sources: Seq<(Seq<char>, usize)>, loads: Seq<SourceLoad>, ps: Seq<(usize, usize)>) -> Seq<Option<Seq<char>>> {
    ps.map_values(|p: (usize, usize)| load_check(sources, loads, p.0, p.1))
}

/// The reasons for each page entry.
pub open spec fn entry_checks(sources: Seq<(Seq<char>, usize)>, loads: Seq<SourceLoad>, es: Seq<(usize, usize, Seq<(usize, usize)>)>) -> Seq<Option<Seq<char>>> {
    es.map_values(|e: (usize, usize, Seq<(usize, usize)>)| entry_check(sources, loads, e))
}

/// Added pages as output pages.
pub open spec fn pages_planned(ps: Seq<(usize, usize)>) -> Seq<(usize, usize, Seq<(usize, usize)>)> {
    ps.map_values(|p: (usize, usize)| (p.0, p.1, Seq::<(usize, usize)>::empty()))
}

/// Page entries as output pages.
pub open spec fn entries_planned(es: Seq<(usize, usize, Seq<(usize, usize)>)>) -> Seq<(usize, usize, Seq<(usize, usize)>)> {
    es.map_values(|e: (usize, usize, Seq<(usize, usize)>)| planned_entry(e))
}

/// Output pages as plain values.
pub open spec fn planned_views(v: Seq<PlannedPage>) -> Seq<(usize, usize, Seq<(usize, usize)>)> {
    v.map_values(|p: PlannedPage| p@)
}

/// The output pages of a merge, or why it cannot go ahead: no sources, no pages, or the
/// first page (added pages first, then entries) that cannot be taken.
pub open spec fn merge_plan_outcome(m: OfdMergerView, loads: Seq<SourceLoad>) -> Result<Seq<(usize, usize, Seq<(usize, usize)>)>, Seq<char>> {
    if m.sources.len() == 0 {
        Err("没有注册源文档"@)
    } else if m.pages.len() == 0 && m.entries.len() == 0 {
        Err("没有指定要合并的页面"@)
    } else {
        match first_error(page_checks(m.sources, loads, m.pages)) {
            Some(e) => Err(e),
            None => match first_error(entry_checks(m.sources, loads, m.entries)) {
                Some(e) => Err(e),
                None => Ok(pages_planned(m.pages) + entries_planned(m.entries)),
            },
        }
    }
}

/// The key of an image in the table: the hexadecimal SM3 digest of its bytes.
pub open spec fn image_key(data: Seq<u8>) -> Seq<char> {
    hex_text(sm3_digest(data))
}

/// The name given to the `n`-th new image with the given extension.
pub open spec fn image_resource_name(n: nat, ext: Seq<char>) -> Seq<char> {
    "Res/"@ + decimal_chars(n) + ext
}

proof fn lemma_first_error_step(errs: Seq<Option<Seq<char>>>, i: int)
    requires
        0 <= i < errs.len(),
    ensures
        first_error(errs.skip(i)) == (if errs[i] is Some {
            errs[i]
        } else {
            first_error(errs.skip(i + 1))
        }),
{
    assert(errs.skip(i)[0] == errs[i]);
    assert(errs.skip(i).skip(1) =~= errs.skip(i + 1));
}

/// The name an image gets: the stored name when equal bytes were seen before, else
/// `Res/` and the next number and the extension, which is then stored.
pub fn dedup_image_resource(dedup: &mut ResourceDedup, extension: &str, data: &[u8]) -> (r: String)
    requires
        old(dedup)@.1 < usize::MAX,
    ensures
        old(dedup)@.0.contains_key(image_key(data@)) ==> {
            &&& r@ == old(dedup)@.0[image_key(data@)]
            &&& final(dedup)@ == old(dedup)@
        },
        !old(dedup)@.0.contains_key(image_key(data@)) ==> {
            &&& r@ == image_resource_name((old(dedup)@.1 + 1) as nat, extension@)
            &&& final(dedup)@.0 == old(dedup)@.0.insert(image_key(data@), r@)
            &&& final(dedup)@.1 == old(dedup)@.1 + 1
        },
{
    let hash = ResourceDedup::compute_hash(data);
    if let Some(existing) = dedup.get_by_hash(hash.as_str()) {
        return String::from_str(existing);
    }
    let counter = dedup.counter() + 1;
    let mut name = String::from_str("Res/");
    push_usize(&mut name, counter);
    push_str(&mut name, extension);
    let stored = name.clone();
    dedup.register(hash, stored);
    name
}

/// Lower-case hexadecimal digit.
pub open spec fn hex_digit(d: nat) -> char {
    if d < 10 {
        (48 + d) as char
    } else {
        (87 + d) as char
    }
}

/// The last `w` hexadecimal digits of `v`, with leading zeros.
pub open spec fn hex_fixed(v: nat, w: nat) -> Seq<char>
    decreases w,
{
    if w == 0 {
        Seq::empty()
    } else {
        hex_fixed(v / 16, (w - 1) as nat).push(hex_digit(v % 16))
    }
}

/// A document id made from a count of nanoseconds, in the 8-4-4-4-12 shape of a UUID: bits
/// 96..128, 80..96, 64..80, 48..64 and 0..48 of the count.
pub open spec fn doc_id_text(nanos: nat) -> Seq<char> {
    hex_fixed((nanos / 0x1_0000_0000_0000_0000_0000_0000) % 0x1_0000_0000, 8) + "-"@ + hex_fixed(
        (nanos / 0x1_0000_0000_0000_0000_0000) % 0x1_0000,
        4,
    ) + "-"@ + hex_fixed((nanos / 0x1_0000_0000_0000_0000) % 0x1_0000, 4) + "-"@ + hex_fixed(
        (nanos / 0x1_0000_0000_0000) % 0x1_0000,
        4,
    ) + "-"@ + hex_fixed(nanos % 0x1_0000_0000_0000, 12)
}

fn push_hex_fixed(s: &mut String, v: u128, w: usize)
    ensures
        final(s)@ == old(s)@ + hex_fixed(v as nat, w as nat),
    decreases w,
{
    if w > 0 {
        push_hex_fixed(s, v / 16, w - 1);
        let d: u8 = (v % 16) as u8;
        if d < 10 {
            push_char(s, (48u8 + d) as char);
        } else {
            push_char(s, (87u8 + d) as char);
        }
    }
}

/// The id of a merged document, from the nanoseconds since the Unix epoch.
pub fn doc_id_from_nanos(nanos: u128) -> (r: String)
    ensures
        r@ == doc_id_text(nanos as nat),
{
    let mut s = String::new();
    push_hex_fixed(&mut s, (nanos / 0x1_0000_0000_0000_0000_0000_0000) % 0x1_0000_0000, 8);
    push_str(&mut s, "-");
    push_hex_fixed(&mut s, (nanos / 0x1_0000_0000_0000_0000_0000) % 0x1_0000, 4);
    push_str(&mut s, "-");
    push_hex_fixed(&mut s, (nanos / 0x1_0000_0000_0000_0000) % 0x1_0000, 4);
    push_str(&mut s, "-");
    push_hex_fixed(&mut s, (nanos / 0x1_0000_0000_0000) % 0x1_0000, 4);
    push_str(&mut s, "-");
    push_hex_fixed(&mut s, nanos % 0x1_0000_0000_0000, 12);
    s
}

/// Page `p` (from 0) of source `i` is there to be taken.
pub open spec fn page_exists(sources: Seq<(Seq<char>, usize)>, loads: Seq<SourceLoad>, i: usize, p: usize) -> bool {
    &&& i < sources.len()
    &&& loads[i as int] matches SourceLoad::Loaded(n) && p < n
}

proof fn lemma_first_error_none(errs: Seq<Option<Seq<char>>>)
    ensures
        first_error(errs) is None ==> forall|k: int| 0 <= k < errs.len() ==> errs[k] is None,
    decreases errs.len(),
{
    if errs.len() > 0 && errs[0] is None && first_error(errs) is None {
        lemma_first_error_none(errs.skip(1));
        assert forall|k: int| 0 <= k < errs.len() implies errs[k] is None by {
            if k > 0 {
                assert(errs.skip(1)[k - 1] == errs[k]);
            }
        }
    }
}

/// A merge that goes ahead gives one output page per added page and page entry, in that
/// order, and every page it takes, whether as an output page or laid over one, is a page
/// that its source document has.
pub proof fn lemma_plan_takes_existing_pages(m: OfdMergerView, loads: Seq<SourceLoad>)
    requires
        merge_plan_outcome(m, loads) is Ok,
    ensures
        merge_plan_outcome(m, loads) matches Ok(ps) && {
            &&& ps.len() == m.pages.len() + m.entries.len()
            &&& forall|k: int| 0 <= k < ps.len() ==> page_exists(m.sources, loads, #[trigger] ps[k].0, ps[k].1)
            &&& forall|k: int, q: int|
                0 <= k < ps.len() && 0 <= q < ps[k].2.len() ==> page_exists(
                    m.sources,
                    loads,
                    #[trigger] ps[k].2[q].0,
                    ps[k].2[q].1,
                )
        },
{
    let pc = page_checks(m.sources, loads, m.pages);
    let ec = entry_checks(m.sources, loads, m.entries);
    lemma_first_error_none(pc);
    lemma_first_error_none(ec);
    let ps = pages_planned(m.pages) + entries_planned(m.entries);
    let np = m.pages.len() as int;
    assert forall|k: int| 0 <= k < ps.len() implies page_exists(m.sources, loads, #[trigger] ps[k].0, ps[k].1) by {
        if k < np {
            assert(pc[k] is None);
        } else {
            assert(ec[k - np] is None);
        }
    }
    assert forall|k: int, q: int| 0 <= k < ps.len() && 0 <= q < ps[k].2.len() implies page_exists(
        m.sources,
        loads,
        #[trigger] ps[k].2[q].0,
        ps[k].2[q].1,
    ) by {
        if k >= np {
            let e = m.entries[k - np];
            assert(ec[k - np] is None);
            let mc = mix_checks(m.sources, loads, e.2);
            lemma_first_error_none(mc);
            assert(mc[q] is None);
        }
    }
}

/// Equal images are stored once: after an image gets a new name, the table holds that name
/// for its bytes, so every later image with the same bytes gets the same name and changes
/// nothing, whatever its extension.
pub proof fn lemma_equal_images_share_a_name(
    table: Map<Seq<char>, Seq<char>>,
    counter: usize,
    data: Seq<u8>,
    ext: Seq<char>,
)
    requires
        !table.contains_key(image_key(data)),
    ensures
        table.insert(image_key(data), image_resource_name((counter + 1) as nat, ext)).contains_key(image_key(data)),
        table.insert(image_key(data), image_resource_name((counter + 1) as nat, ext))[image_key(data)]
            == image_resource_name((counter + 1) as nat, ext),
{
}

impl OfdMerger {
    /// The context holds exactly the sources and pages added, and no renamed resources; the
    /// added pages and entries can be counted in a `usize`.
    pub closed spec fn wf(&self) -> bool {
        &&& self.context@.sources == source_map(self@.sources)
        &&& self.context@.pages == page_map(self@.pages)
        &&& self.context@.remap == Map::<Seq<char>, Seq<char>>::empty()
        &&& self@.pages.len() + self@.entries.len() <= usize::MAX
    }

    /// A merger writing to `output_path`, with nothing added.
    pub fn new(output_path: &str) -> (r: Self)
        ensures
            r.wf(),
            r@.output_path == output_path@,
            r@.sources.len() == 0,
            r@.pages.len() == 0,
            r@.entries.len() == 0,
            r@.resources.0 == Map::<Seq<char>, Seq<char>>::empty(),
            r@.resources.1 == 0,
    {
        let r = OfdMerger {
            output_path: String::from_str(output_path),
            sources: Vec::new(),
            pages: Vec::new(),
            page_entries: Vec::new(),
            context: DocContext::new(),
            dedup: ResourceDedup::new(),
        };
        assert(r.context@.sources =~= source_map(r@.sources));
        assert(r.context@.pages =~= page_map(r@.pages));
        r
    }

    /// Registers a source document; its index, counted from 0.
    pub fn add_source(&mut self, path: &str, page_count: usize) -> (index: usize)
        requires
            old(self).wf(),
        ensures
            final(self).wf(),
            index == old(self)@.sources.len(),
            final(self)@.sources == old(self)@.sources.push((path@, page_count)),
            final(self)@.output_path == old(self)@.output_path,
            final(self)@.pages == old(self)@.pages,
            final(self)@.entries == old(self)@.entries,
            final(self)@.resources == old(self)@.resources,
    {
        let index = self.sources.len();
        self.context.add_source(index, path);
        self.sources.push(BareOFDDoc::new(path, page_count));
        assert(self@.sources =~= old(self)@.sources.push((path@, page_count)));
        assert(self.context@.sources =~= source_map(self@.sources));
        index
    }

    /// Adds page `page_index` (from 0) of source `source_index` as the next output page.
    pub fn add_page(&mut self, source_index: usize, page_index: usize)
        requires
            old(self).wf(),
            old(self)@.pages.len() + old(self)@.entries.len() < usize::MAX,
        ensures
            final(self).wf(),
            final(self)@.pages == old(self)@.pages.push((source_index, page_index)),
            final(self)@.output_path == old(self)@.output_path,
            final(self)@.sources == old(self)@.sources,
            final(self)@.entries == old(self)@.entries,
            final(self)@.resources == old(self)@.resources,
    {
        let global_index = self.pages.len();
        self.context.add_page_mapping(global_index, source_index, page_index);
        self.pages.push((source_index, page_index));
        assert(self.context@.pages =~= page_map(self@.pages));
    }

    /// Adds a page entry (page numbers from 1, with pages laid over it).
    pub fn add_page_entry(&mut self, entry: PageEntry)
        requires
            old(self).wf(),
            old(self)@.pages.len() + old(self)@.entries.len() < usize::MAX,
        ensures
            final(self).wf(),
            final(self)@.entries == old(self)@.entries.push(entry_plan(entry)),
            final(self)@.output_path == old(self)@.output_path,
            final(self)@.sources == old(self)@.sources,
            final(self)@.pages == old(self)@.pages,
            final(self)@.resources == old(self)@.resources,
    {
        let ghost e = entry_plan(entry);
        self.page_entries.push(entry);
        assert(self@.entries =~= old(self)@.entries.push(e));
    }

    /// The output path.
    pub fn output_path(&self) -> (r: &str)
        ensures
            r@ == self@.output_path,
    {
        self.output_path.as_str()
    }

    /// Number of registered sources.
    pub fn source_count(&self) -> (r: usize)
        ensures
            r == self@.sources.len(),
    {
        self.sources.len()
    }

    /// Number of output pages asked for: added pages and entries.
    pub fn page_count(&self) -> (r: usize)
        requires
            self.wf(),
        ensures
            r == self@.pages.len() + self@.entries.len(),
    {
        self.pages.len() + self.page_entries.len()
    }

    /// Whether every added page's index is below `usize::MAX` (its number from 1 can be
    /// written).
    pub fn page_indices_fit(&self) -> (b: bool)
        ensures
            b == forall|i: int| 0 <= i < self@.pages.len() ==> #[trigger] self@.pages[i].1 < usize::MAX,
    {
        let mut i: usize = 0;
        while i < self.pages.len()
            invariant
                i <= self.pages@.len(),
                forall|k: int| 0 <= k < i ==> #[trigger] self.pages@[k].1 < usize::MAX,
            decreases self.pages@.len() - i,
        {
            if self.pages[i].1 == usize::MAX {
                assert(self@.pages[i as int].1 == usize::MAX);
                return false;
            }
            i = i + 1;
        }
        true
    }

    /// Number of images named so far.
    pub fn image_count(&self) -> (r: usize)
        ensures
            r == self@.resources.1,
    {
        self.dedup.counter()
    }

    /// The bookkeeping: the registered sources and the added pages.
    pub fn context(&self) -> (r: &DocContext)
        requires
            self.wf(),
        ensures
            r@.sources == source_map(self@.sources),
            r@.pages == page_map(self@.pages),
            r@.remap == Map::<Seq<char>, Seq<char>>::empty(),
    {
        &self.context
    }

    /// The name of an image of the merged document (see `dedup_image_resource`).
    pub fn dedup_image(&mut self, extension: &str, data: &[u8]) -> (r: String)
        requires
            old(self).wf(),
            old(self)@.resources.1 < usize::MAX,
        ensures
            final(self).wf(),
            final(self)@.output_path == old(self)@.output_path,
            final(self)@.sources == old(self)@.sources,
            final(self)@.pages == old(self)@.pages,
            final(self)@.entries == old(self)@.entries,
            old(self)@.resources.0.contains_key(image_key(data@)) ==> {
                &&& r@ == old(self)@.resources.0[image_key(data@)]
                &&& final(self)@.resources == old(self)@.resources
            },
            !old(self)@.resources.0.contains_key(image_key(data@)) ==> {
                &&& r@ == image_resource_name((old(self)@.resources.1 + 1) as nat, extension@)
                &&& final(self)@.resources.0 == old(self)@.resources.0.insert(image_key(data@), r@)
                &&& final(self)@.resources.1 == old(self)@.resources.1 + 1
            },
    {
        dedup_image_resource(&mut self.dedup, extension, data)
    }

    fn load_check_exec(&self, loads: &[SourceLoad], i: usize, page0: usize) -> (r: Option<String>)
        requires
            self.wf(),
            loads@.len() == self@.sources.len(),
            page0 < usize::MAX,
        ensures
            match load_check(self@.sources, loads@, i, page0) {
                Some(m) => r matches Some(e) && e@ == m,
                None => r is None,
            },
    {
        if i >= self.sources.len() {
            let mut m = String::from_str("源文档索引 ");
            push_usize(&mut m, i);
            push_str(&mut m, " 未注册");
            return Some(m);
        }
        let path = self.sources[i].path();
        match &loads[i] {
            SourceLoad::ReadFailed(e) => {
                let mut m = String::from_str("读取源文档 '");
                push_str(&mut m, path);
                push_str(&mut m, "' 失败: ");
                push_str(&mut m, e.as_str());
                Some(m)
            },
            SourceLoad::ParseFailed(e) => {
                let mut m = String::from_str("解析源文档 '");
                push_str(&mut m, path);
                push_str(&mut m, "' 失败: ");
                push_str(&mut m, e.as_str());
                Some(m)
            },
            SourceLoad::Loaded(n) => {
                if page0 >= *n {
                    let mut m = String::from_str("源文档 '");
                    push_str(&mut m, path);
                    push_str(&mut m, "' 页码越界：请求第 ");
                    push_usize(&mut m, page0 + 1);
                    push_str(&mut m, " 页，但文档共 ");
                    push_usize(&mut m, *n);
                    push_str(&mut m, " 页");
                    Some(m)
                } else {
                    None
                }
            },
        }
    }

    fn source_name_exec(&self, i: usize) -> (r: String)
        ensures
            r@ == source_name(self@.sources, i),
    {
        if i < self.sources.len() {
            String::from_str(self.sources[i].path())
        } else {
            String::from_str("未知")
        }
    }

    fn mix_check_exec(&self, loads: &[SourceLoad], m: (usize, usize)) -> (r: Option<String>)
        requires
            self.wf(),
            loads@.len() == self@.sources.len(),
        ensures
            match mix_check(self@.sources, loads@, m) {
                Some(e) => r matches Some(t) && t@ == e,
                None => r is None,
            },
    {
        if m.1 == 0 {
            let mut t = String::from_str("源文档 '");
            let name = self.source_name_exec(m.0);
            push_str(&mut t, name.as_str());
            push_str(&mut t, "' 的混合页码不能为 0（PageEntry 页码从 1 开始）");
            return Some(t);
        }
        self.load_check_exec(loads, m.0, m.1 - 1)
    }

    /// Checks the merge against what each source holds (`loads[i]` for source `i`) and
    /// gives the output pages in order, or the reason it cannot go ahead.
    pub fn merge_plan(&self, loads: &[SourceLoad]) -> (r: Result<Vec<PlannedPage>, String>)
        requires
            self.wf(),
            loads@.len() == self@.sources.len(),
            forall|i: int| 0 <= i < self@.pages.len() ==> #[trigger] self@.pages[i].1 < usize::MAX,
        ensures
            match merge_plan_outcome(self@, loads@) {
                Ok(ps) => r matches Ok(v) && planned_views(v@) == ps,
                Err(m) => r matches Err(e) && e@ == m,
            },
    {
        if self.sources.len() == 0 {
            return Err(String::from_str("没有注册源文档"));
        }
        if self.pages.len() == 0 && self.page_entries.len() == 0 {
            return Err(String::from_str("没有指定要合并的页面"));
        }
        let ghost sources = self@.sources;
        let ghost pchecks = page_checks(sources, loads@, self@.pages);
        let mut out: Vec<PlannedPage> = Vec::new();
        let mut i: usize = 0;
        assert(pchecks.skip(0) == pchecks);
        while i < self.pages.len()
            invariant
                self.wf(),
                sources == self@.sources,
                sources.len() > 0,
                !(self@.pages.len() == 0 && self@.entries.len() == 0),
                loads@.len() == sources.len(),
                forall|k: int| 0 <= k < self@.pages.len() ==> #[trigger] self@.pages[k].1 < usize::MAX,
                pchecks == page_checks(sources, loads@, self@.pages),
                i <= self@.pages.len(),
                first_error(pchecks) == first_error(pchecks.skip(i as int)),
                planned_views(out@) == pages_planned(self@.pages.take(i as int)),
            decreases self@.pages.len() - i,
        {
            let (s, pg) = self.pages[i];
            proof {
                lemma_first_error_step(pchecks, i as int);
                assert(self@.pages[i as int] == (s, pg));
            }
            match self.load_check_exec(loads, s, pg) {
                Some(m) => return Err(m),
                None => {},
            }
            let ghost before = out@;
            out.push(PlannedPage { source_index: s, page_index: pg, mix_pages: Vec::new() });
            proof {
                assert(planned_views(before).len() == before.len());
                assert(pages_planned(self@.pages.take(i as int)).len() == i);
                assert(out@.len() == before.len() + 1);
                assert(forall|k: int| 0 <= k < before.len() ==> out@[k] == before[k]);
                assert forall|k: int| 0 <= k < i implies #[trigger] planned_views(out@)[k] == pages_planned(
                    self@.pages.take(i + 1),
                )[k] by {
                    assert(out@[k] == before[k]);
                    assert(planned_views(before)[k] == pages_planned(self@.pages.take(i as int))[k]);
                }
                assert(planned_views(out@)[i as int] == pages_planned(self@.pages.take(i + 1))[i as int]);
                assert(planned_views(out@) =~= pages_planned(self@.pages.take(i + 1)));
            }
            i = i + 1;
        }
        assert(self@.pages.take(self@.pages.len() as int) == self@.pages);
        let ghost echecks = entry_checks(sources, loads@, self@.entries);
        let mut j: usize = 0;
        assert(echecks.skip(0) == echecks);
        while j < self.page_entries.len()
            invariant
                self.wf(),
                sources == self@.sources,
                sources.len() > 0,
                !(self@.pages.len() == 0 && self@.entries.len() == 0),
                loads@.len() == sources.len(),
                first_error(pchecks) is None,
                pchecks == page_checks(sources, loads@, self@.pages),
                echecks == entry_checks(sources, loads@, self@.entries),
                j <= self@.entries.len(),
                first_error(echecks) == first_error(echecks.skip(j as int)),
                planned_views(out@) == pages_planned(self@.pages) + entries_planned(self@.entries.take(j as int)),
            decreases self@.entries.len() - j,
        {
            let e = &self.page_entries[j];
            let ghost ev = entry_plan(*e);
            proof {
                lemma_first_error_step(echecks, j as int);
                assert(self@.entries[j as int] == ev);
                assert(echecks[j as int] == entry_check(sources, loads@, ev));
            }
            if e.page_index == 0 {
                let mut t = String::from_str("源文档 '");
                let name = self.source_name_exec(e.doc_ctx_index);
                push_str(&mut t, name.as_str());
                push_str(&mut t, "' 的页码不能为 0（PageEntry 页码从 1 开始）");
                return Err(t);
            }
            match self.load_check_exec(loads, e.doc_ctx_index, e.page_index - 1) {
                Some(m) => return Err(m),
                None => {},
            }
            let ghost mchecks = mix_checks(sources, loads@, ev.2);
            let mut mixes: Vec<(usize, usize)> = Vec::new();
            let mut k: usize = 0;
            assert(mchecks.skip(0) == mchecks);
            while k < e.tb_mix_pages.len()
                invariant
                    self.wf(),
                    sources == self@.sources,
                    sources.len() > 0,
                    !(self@.pages.len() == 0 && self@.entries.len() == 0),
                    loads@.len() == sources.len(),
                    first_error(pchecks) is None,
                    pchecks == page_checks(sources, loads@, self@.pages),
                    echecks == entry_checks(sources, loads@, self@.entries),
                    j < self@.entries.len(),
                    first_error(echecks) == first_error(echecks.skip(j as int)),
                    echecks[j as int] == entry_check(sources, loads@, ev),
                    ev.1 != 0,
                    load_check(sources, loads@, ev.0, (ev.1 - 1) as usize) is None,
                    ev == entry_plan(*e),
                    mchecks == mix_checks(sources, loads@, ev.2),
                    k <= e.tb_mix_pages@.len(),
                    first_error(mchecks) == first_error(mchecks.skip(k as int)),
                    mixes@ == mixes_planned(ev.2.take(k as int)),
                decreases e.tb_mix_pages@.len() - k,
            {
                let mp = &e.tb_mix_pages[k];
                let m = (mp.doc_ctx_index, mp.page_index);
                proof {
                    lemma_first_error_step(mchecks, k as int);
                    assert(ev.2[k as int] == m);
                }
                match self.mix_check_exec(loads, m) {
                    Some(t) => return Err(t),
                    None => {},
                }
                mixes.push((m.0, m.1 - 1));
                proof {
                    assert(mixes@ =~= mixes_planned(ev.2.take(k + 1)));
                }
                k = k + 1;
            }
            assert(ev.2.take(ev.2.len() as int) == ev.2);
            let ghost before = out@;
            out.push(PlannedPage { source_index: e.doc_ctx_index, page_index: e.page_index - 1, mix_pages: mixes });
            proof {
                assert(entries_planned(self@.entries.take(j + 1)) =~= entries_planned(self@.entries.take(j as int)).push(planned_entry(ev)));
                assert(planned_views(out@) =~= planned_views(before).push(planned_entry(ev)));
            }
            j = j + 1;
        }
        assert(self@.entries.take(self@.entries.len() as int) == self@.entries);
        Ok(out)
    }
}

} // verus!
