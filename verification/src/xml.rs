//! Reading the signature files: the references of `SignedInfo.xml`, the top-level fields of
//! `Signature.xml`, and the signature list of `OFD.xml`.
use vstd::prelude::*;
use quick_xml::events::attributes::Attributes;
use quick_xml::events::Event;
use quick_xml::reader::Reader;
use crate::ofd_error::{OfdError, OfdResult};
use crate::text::{chars_of, push_str, str_eq, string_from_chars, substring_of, trim_spec, trim_string, utf8_decode};

verus! {

/// Index of the last `:` in `s`, or -1.
pub open spec fn last_colon(s: Seq<char>) -> int
    decreases s.len(),
{
    if s.len() == 0 {
        -1
    } else if s.last() == ':' {
        s.len() - 1
    } else {
        last_colon(s.drop_last())
    }
}

/// The local part of a qualified name: the text after the last `:`, or all of it.
pub open spec fn local_part(s: Seq<char>) -> Seq<char> {
    s.subrange(last_colon(s) + 1, s.len() as int)
}

/// The local part of a raw element or attribute name; empty when it is not UTF-8.
pub open spec fn local_name_of(name: Seq<u8>) -> Seq<char> {
    if vstd::utf8::valid_utf8(name) {
        local_part(vstd::utf8::decode_utf8(name))
    } else {
        Seq::empty()
    }
}

proof fn lemma_last_colon_bounds(s: Seq<char>)
    ensures
        -1 <= last_colon(s) < s.len(),
    decreases s.len(),
{
    if s.len() > 0 && s.last() != ':' {
        lemma_last_colon_bounds(s.drop_last());
    }
}

/// The local part of a qualified name (`ofd:FileRef` gives `FileRef`).
pub fn local_part_of(s: &str) -> (r: String)
    ensures
        r@ == local_part(s@),
{
    let cs = chars_of(s);
    let mut i = cs.len();
    assert(cs@.take(i as int) == cs@);
    proof {
        lemma_last_colon_bounds(cs@);
    }
    while i > 0
        invariant
            i <= cs@.len(),
            cs@ == s@,
            last_colon(cs@) == last_colon(cs@.take(i as int)),
        decreases i,
    {
        assert(cs@.take(i as int).drop_last() == cs@.take(i - 1));
        if cs[i - 1] == ':' {
            assert(cs@.take(i as int).last() == ':');
            return crate::text::substring_of(cs.as_slice(), i, cs.len());
        }
        i = i - 1;
    }
    assert(last_colon(cs@.take(0)) == -1);
    crate::text::substring_of(cs.as_slice(), 0, cs.len())
}

/// The local part of a raw element or attribute name; empty when it is not UTF-8.
pub fn local_name(name: &[u8]) -> (r: String)
    ensures
        r@ == local_name_of(name@),
{
    match utf8_decode(name) {
        Some(s) => local_part_of(s.as_str()),
        None => String::new(),
    }
}

/// One protected file listed in `SignedInfo.xml`.
#[derive(Debug, Clone)]
pub struct FileRefEntry {
    /// Path of the file in the package (the element's text).
    pub name: String,
    /// Digest method (e.g. `SM3`).
    pub check_method: String,
    /// Expected digest in hexadecimal.
    pub check_value: String,
}

/// The fields of `Signature.xml` that verification and re-signing need.
#[derive(Debug)]
pub struct SignatureTop {
    /// Path of `SignedInfo.xml`.
    pub signed_info_ref: Option<String>,
    /// Path of `SignedValue.dat`.
    pub signed_value: Option<String>,
    /// The public key in hexadecimal.
    pub public_key: Option<String>,
    /// The signature method's name.
    pub method: Option<String>,
    /// The provider's whole tag text after the name, attributes included (such as
    /// `Version="1.0">easyofd-rust`), from which the element can be written again.
    pub provider: Option<String>,
    /// The signing time.
    pub datetime: Option<String>,
    /// Path of the seal file, from the `Seal` element's `BaseLoc` or `Ref` attribute.
    pub seal_path: Option<String>,
}

impl SignatureTop {
    /// No field found.
    pub fn empty() -> (r: Self)
        ensures
            r.signed_info_ref is None,
            r.signed_value is None,
            r.public_key is None,
            r.method is None,
            r.provider is None,
            r.datetime is None,
            r.seal_path is None,
    {
        SignatureTop {
            signed_info_ref: None,
            signed_value: None,
            public_key: None,
            method: None,
            provider: None,
            datetime: None,
            seal_path: None,
        }
    }
}

/// One signature listed in `OFD.xml`.
#[derive(Debug, Clone)]
pub struct SignatureRef {
    /// Path of the signature file.
    pub path: String,
}

/// The signature list of `OFD.xml`.
#[derive(Debug)]
pub struct OfdRoot {
    /// The signatures, in document order.
    pub signatures: Vec<SignatureRef>,
}

/// A start or empty-element tag: its qualified name and its attributes (qualified name and raw
/// value), in document order.
#[derive(Debug, Clone)]
pub struct XmlTag {
    /// The qualified name.
    pub name: String,
    /// The attributes, as written.
    pub attrs: Vec<(String, String)>,
    /// The tag text after the name (the attributes as written), trimmed.
    pub rest: String,
}

/// An event of an XML reader that trims whitespace around text.
#[derive(Debug, Clone)]
pub enum XmlEvent {
    /// A start tag.
    Start(XmlTag),
    /// An empty-element tag.
    Empty(XmlTag),
    /// An end tag, by qualified name.
    End(String),
    /// Character data, as written (entity references are separate events).
    Text(String),
    /// Any other event (declaration, comment, CDATA, reference, ...).
    Other,
}

/// An event as the reader reports it: tags come as their qualified name and their whole
/// text between `<` and `>` (name and attributes).
#[derive(Debug, Clone)]
pub enum RawXmlEvent {
    /// A start tag: name and tag text.
    Start(String, String),
    /// An empty-element tag: name and tag text.
    Empty(String, String),
    /// An end tag, by qualified name.
    End(String),
    /// Character data, as written.
    Text(String),
    /// Any other event.
    Other,
}

/// The events `quick_xml` reads from a document with text trimming on, up to the end of the
/// document, or the display text of the first error.
pub uninterp spec fn xml_tokens(xml: Seq<char>) -> Result<Seq<RawXmlEvent>, Seq<char>>;

/// A tag event's text begins with its name (other events trivially qualify).
pub open spec fn name_leads(e: RawXmlEvent) -> bool {
    match e {
        RawXmlEvent::Start(n, c) => n@.len() <= c@.len() && c@.take(n@.len() as int) == n@,
        RawXmlEvent::Empty(n, c) => n@.len() <= c@.len() && c@.take(n@.len() as int) == n@,
        _ => true,
    }
}

/// Reads all events of `xml` with `quick_xml::reader::Reader` (`from_str`, `trim_text(true)`,
/// `read_event` until `Eof`), or the display text of the first error. The events are a
/// function of the document alone; they are named, not described. A tag's name is
/// `name()`, the first `name_len` bytes of the tag text that `to_string` gives in full, so
/// every tag text begins with its name.
#[verifier::external_body]
pub(crate) fn read_xml_events(xml: &str) -> (r: Result<Vec<RawXmlEvent>, String>)
    ensures
        match xml_tokens(xml@) {
            Ok(evs) => r matches Ok(v) && v@ == evs,
            Err(m) => r matches Err(e) && e@ == m,
        },
        r matches Ok(v) ==> forall|i: int| 0 <= i < v@.len() ==> name_leads(#[trigger] v@[i]),
{
    let mut r = Reader::from_str(xml);
    r.config_mut().trim_text(true);
    let mut out = Vec::new();
    loop {
        out.push(match r.read_event() {
            Ok(Event::Eof) => return Ok(out),
            Err(e) => return Err(e.to_string()),
            Ok(Event::Start(e)) => RawXmlEvent::Start(e.name().0.into(), e.to_string()),
            Ok(Event::Empty(e)) => RawXmlEvent::Empty(e.name().0.into(), e.to_string()),
            Ok(Event::End(e)) => RawXmlEvent::End(e.name().0.into()),
            Ok(Event::Text(t)) => RawXmlEvent::Text(t.to_string()),
            Ok(_) => RawXmlEvent::Other,
        });
    }
}

/// The attributes `quick_xml` reads from a tag's text after its name (the first `name_len`
/// bytes), as (qualified name, raw value), skipping malformed ones.
pub uninterp spec fn tag_attributes(content: Seq<char>, name_len: usize) -> Seq<(Seq<char>, Seq<char>)>;

/// `quick_xml::events::attributes::Attributes::new(content, name_len)`, keeping the
/// attributes that read without error (as `BytesStart::attributes` with `flatten` does).
/// The iterator slices `content` at byte positions from `name_len` on, so `name_len` must
/// end a character of `content`.
#[verifier::external_body]
pub(crate) fn read_tag_attributes(content: &str, name_len: usize) -> (r: Vec<(String, String)>)
    requires
        exists|k: int|
            0 <= k <= content@.len() && vstd::utf8::encode_utf8(#[trigger] content@.take(k)).len() as usize == name_len,
    ensures
        r@.map_values(|a: (String, String)| (a.0@, a.1@)) == tag_attributes(content@, name_len),
{
    Attributes::new(content, name_len).flatten().map(|a| (a.key.0.into(), a.value.into())).collect()
}

/// An event with its texts as character sequences.
pub enum XmlEventView {
    /// A start tag: local-or-qualified name, attributes, and the trimmed tag text after the
    /// name.
    Start(Seq<char>, Seq<(Seq<char>, Seq<char>)>, Seq<char>),
    /// An empty-element tag.
    Empty(Seq<char>, Seq<(Seq<char>, Seq<char>)>),
    /// An end tag.
    End(Seq<char>),
    /// Character data.
    Text(Seq<char>),
    /// Anything else.
    Other,
}

/// Attribute pairs as character sequences.
pub open spec fn attrs_view(a: Seq<(String, String)>) -> Seq<(Seq<char>, Seq<char>)> {
    a.map_values(|p: (String, String)| (p.0@, p.1@))
}

/// An event as character sequences.
pub open spec fn event_view(e: XmlEvent) -> XmlEventView {
    match e {
        XmlEvent::Start(t) => XmlEventView::Start(t.name@, attrs_view(t.attrs@), t.rest@),
        XmlEvent::Empty(t) => XmlEventView::Empty(t.name@, attrs_view(t.attrs@)),
        XmlEvent::End(n) => XmlEventView::End(n@),
        XmlEvent::Text(t) => XmlEventView::Text(t@),
        XmlEvent::Other => XmlEventView::Other,
    }
}

/// Events as character sequences.
pub open spec fn events_view(evs: Seq<XmlEvent>) -> Seq<XmlEventView> {
    evs.map_values(|e: XmlEvent| event_view(e))
}

/// A reader event with its tag attributes read.
pub open spec fn cooked_event(e: RawXmlEvent) -> XmlEventView {
    match e {
        RawXmlEvent::Start(n, c) => XmlEventView::Start(
            n@,
            tag_attributes(c@, vstd::utf8::encode_utf8(n@).len() as usize),
            trim_spec(c@.skip(n@.len() as int)),
        ),
        RawXmlEvent::Empty(n, c) => XmlEventView::Empty(
            n@,
            tag_attributes(c@, vstd::utf8::encode_utf8(n@).len() as usize),
        ),
        RawXmlEvent::End(n) => XmlEventView::End(n@),
        RawXmlEvent::Text(t) => XmlEventView::Text(t@),
        RawXmlEvent::Other => XmlEventView::Other,
    }
}

/// The events of a document, with tag attributes read.
pub open spec fn document_events(evs: Seq<RawXmlEvent>) -> Seq<XmlEventView> {
    evs.map_values(|e: RawXmlEvent| cooked_event(e))
}

fn cook_tag(name: &String, content: &String) -> (t: XmlTag)
    requires
        name@.len() <= content@.len(),
        content@.take(name@.len() as int) == name@,
    ensures
        t.name@ == name@,
        attrs_view(t.attrs@) == tag_attributes(content@, vstd::utf8::encode_utf8(name@).len() as usize),
        t.rest@ == trim_spec(content@.skip(name@.len() as int)),
{
    let n = name.as_str().len();
    assert(content@.take(name@.len() as int) == name@);
    assert(vstd::utf8::encode_utf8(content@.take(name@.len() as int)).len() as usize == n);
    let cs = chars_of(content.as_str());
    let k = chars_of(name.as_str()).len();
    let after = substring_of(cs.as_slice(), k, cs.len());
    assert(cs@.subrange(k as int, cs@.len() as int) == content@.skip(k as int));
    let rest = trim_string(after.as_str());
    XmlTag { name: name.clone(), attrs: read_tag_attributes(content.as_str(), n), rest }
}

/// Reads the attributes of every tag among the reader's events.
pub fn cook_events(raw: &[RawXmlEvent]) -> (r: Vec<XmlEvent>)
    requires
        forall|i: int| 0 <= i < raw@.len() ==> name_leads(#[trigger] raw@[i]),
    ensures
        events_view(r@) == document_events(raw@),
{
    let mut out: Vec<XmlEvent> = Vec::new();
    let mut i: usize = 0;
    while i < raw.len()
        invariant
            i <= raw@.len(),
            forall|k: int| 0 <= k < raw@.len() ==> name_leads(#[trigger] raw@[k]),
            events_view(out@) == document_events(raw@.take(i as int)),
        decreases raw@.len() - i,
    {
        let ghost before = out@;
        let e = match &raw[i] {
            RawXmlEvent::Start(n, c) => XmlEvent::Start(cook_tag(n, c)),
            RawXmlEvent::Empty(n, c) => XmlEvent::Empty(cook_tag(n, c)),
            RawXmlEvent::End(n) => XmlEvent::End(n.clone()),
            RawXmlEvent::Text(t) => XmlEvent::Text(t.clone()),
            RawXmlEvent::Other => XmlEvent::Other,
        };
        out.push(e);
        assert(events_view(out@) == events_view(before).push(event_view(e)));
        assert(document_events(raw@.take(i + 1)) == document_events(raw@.take(i as int)).push(
            cooked_event(raw@[i as int]),
        ));
        i = i + 1;
    }
    assert(raw@.take(raw@.len() as int) == raw@);
    out
}

/// The raw value of the last attribute with the given local name, or `default`.
pub open spec fn last_attr(attrs: Seq<(Seq<char>, Seq<char>)>, key: Seq<char>, default: Seq<char>) -> Seq<char>
    decreases attrs.len(),
{
    if attrs.len() == 0 {
        default
    } else if local_part(attrs.last().0) == key {
        attrs.last().1
    } else {
        last_attr(attrs.drop_last(), key, default)
    }
}

fn last_attr_of(attrs: &Vec<(String, String)>, key: &str) -> (r: String)
    ensures
        r@ == last_attr(attrs_view(attrs@), key@, Seq::empty()),
{
    let mut r = String::new();
    let mut i: usize = 0;
    while i < attrs.len()
        invariant
            i <= attrs@.len(),
            r@ == last_attr(attrs_view(attrs@.take(i as int)), key@, Seq::empty()),
        decreases attrs@.len() - i,
    {
        assert(attrs_view(attrs@.take(i + 1)).drop_last() == attrs_view(attrs@.take(i as int)));
        let k = local_part_of(attrs[i].0.as_str());
        if str_eq(k.as_str(), key) {
            r = attrs[i].1.clone();
        }
        i = i + 1;
    }
    assert(attrs@.take(attrs@.len() as int) == attrs@);
    r
}

/// A `FileRef` as (file name, digest method, digest value).
pub open spec fn file_ref_view(e: FileRefEntry) -> (Seq<char>, Seq<char>, Seq<char>) {
    (e.name@, e.check_method@, e.check_value@)
}

/// Reading state of `SignedInfo.xml`: entries so far, inside a reference element and how
/// deep, the attributes of the open reference, and its text so far.
pub struct SignedInfoState {
    /// Entries found, as (name, method, value).
    pub entries: Seq<(Seq<char>, Seq<char>, Seq<char>)>,
    /// Inside a `FileRef` or `RootFile` element.
    pub in_target: bool,
    /// Nesting depth of reference elements.
    pub depth: nat,
    /// Digest method of the open reference.
    pub method: Seq<char>,
    /// Digest value of the open reference.
    pub value: Seq<char>,
    /// Text read inside the open reference.
    pub text: Seq<char>,
}

/// `FileRef` or `RootFile`.
pub open spec fn is_ref_tag(t: Seq<char>) -> bool {
    t == "FileRef"@ || t == "RootFile"@
}

/// One event of `SignedInfo.xml`.
pub open spec fn signed_info_step(s: SignedInfoState, ev: XmlEventView) -> SignedInfoState {
    match ev {
        XmlEventView::Start(name, attrs, _) => if is_ref_tag(local_part(name)) {
            if s.in_target {
                SignedInfoState { depth: s.depth + 1, ..s }
            } else {
                SignedInfoState {
                    in_target: true,
                    depth: 1,
                    method: last_attr(attrs, "CheckMethod"@, Seq::empty()),
                    value: last_attr(attrs, "CheckValue"@, Seq::empty()),
                    text: Seq::empty(),
                    ..s
                }
            }
        } else {
            s
        },
        XmlEventView::Empty(name, attrs) => if is_ref_tag(local_part(name)) && !s.in_target {
            SignedInfoState {
                entries: s.entries.push(
                    (
                        Seq::empty(),
                        last_attr(attrs, "CheckMethod"@, Seq::empty()),
                        last_attr(attrs, "CheckValue"@, Seq::empty()),
                    ),
                ),
                ..s
            }
        } else {
            s
        },
        XmlEventView::End(n) => if is_ref_tag(local_part(n)) && s.in_target {
            if s.depth == 1 {
                SignedInfoState {
                    entries: s.entries.push((trim_spec(s.text), s.method, s.value)),
                    in_target: false,
                    depth: 0,
                    ..s
                }
            } else {
                SignedInfoState { depth: (s.depth - 1) as nat, ..s }
            }
        } else {
            s
        },
        XmlEventView::Text(t) => if s.in_target {
            SignedInfoState { text: s.text + t, ..s }
        } else {
            s
        },
        XmlEventView::Other => s,
    }
}

/// The reading state after the events `evs`.
pub open spec fn signed_info_fold(evs: Seq<XmlEventView>) -> SignedInfoState
    decreases evs.len(),
{
    if evs.len() == 0 {
        SignedInfoState {
            entries: Seq::empty(),
            in_target: false,
            depth: 0,
            method: Seq::empty(),
            value: Seq::empty(),
            text: Seq::empty(),
        }
    } else {
        signed_info_step(signed_info_fold(evs.drop_last()), evs.last())
    }
}

/// The `FileRef` and `RootFile` entries of `SignedInfo.xml`: an element's text (trimmed)
/// is the file name and its `CheckMethod` and `CheckValue` attributes the digest; nested
/// reference elements belong to the outermost one; an empty element gives an entry with no
/// name.
pub open spec fn signed_info_entries(evs: Seq<XmlEventView>) -> Seq<(Seq<char>, Seq<char>, Seq<char>)> {
    signed_info_fold(evs).entries
}

fn is_ref_tag_exec(t: &str) -> (b: bool)
    ensures
        b == is_ref_tag(t@),
{
    str_eq(t, "FileRef") || str_eq(t, "RootFile")
}

/// The `FileRef` entries of the events of `SignedInfo.xml`.
pub fn parse_signed_info_events(evs: &[XmlEvent]) -> (r: Vec<FileRefEntry>)
    ensures
        r@.map_values(|e: FileRefEntry| file_ref_view(e)) == signed_info_entries(events_view(evs@)),
{
    let mut entries: Vec<FileRefEntry> = Vec::new();
    let mut in_target = false;
    let mut depth: usize = 0;
    let mut method = String::new();
    let mut value = String::new();
    let mut text = String::new();
    let mut i: usize = 0;
    while i < evs.len()
        invariant
            i <= evs@.len(),
            depth <= i,
            ({
                let st = signed_info_fold(events_view(evs@.take(i as int)));
                &&& entries@.map_values(|e: FileRefEntry| file_ref_view(e)) == st.entries
                &&& in_target == st.in_target
                &&& depth == st.depth
                &&& method@ == st.method
                &&& value@ == st.value
                &&& text@ == st.text
                &&& (in_target ==> depth >= 1)
            }),
        decreases evs@.len() - i,
    {
        let ghost before = entries@;
        assert(events_view(evs@.take(i + 1)).drop_last() == events_view(evs@.take(i as int)));
        assert(events_view(evs@.take(i + 1)).last() == event_view(evs@[i as int]));
        match &evs[i] {
            XmlEvent::Start(t) => {
                let name = local_part_of(t.name.as_str());
                if is_ref_tag_exec(name.as_str()) {
                    if in_target {
                        depth = depth + 1;
                    } else {
                        in_target = true;
                        depth = 1;
                        method = last_attr_of(&t.attrs, "CheckMethod");
                        value = last_attr_of(&t.attrs, "CheckValue");
                        text = String::new();
                    }
                }
            },
            XmlEvent::Empty(t) => {
                let name = local_part_of(t.name.as_str());
                if is_ref_tag_exec(name.as_str()) && !in_target {
                    let e = FileRefEntry {
                        name: String::new(),
                        check_method: last_attr_of(&t.attrs, "CheckMethod"),
                        check_value: last_attr_of(&t.attrs, "CheckValue"),
                    };
                    entries.push(e);
                    assert(entries@.map_values(|e: FileRefEntry| file_ref_view(e)) == before.map_values(
                        |e: FileRefEntry| file_ref_view(e),
                    ).push(file_ref_view(e)));
                }
            },
            XmlEvent::End(n) => {
                let name = local_part_of(n.as_str());
                if is_ref_tag_exec(name.as_str()) && in_target {
                    if depth == 1 {
                        let e = FileRefEntry {
                            name: trim_string(text.as_str()),
                            check_method: method.clone(),
                            check_value: value.clone(),
                        };
                        entries.push(e);
                        assert(entries@.map_values(|e: FileRefEntry| file_ref_view(e)) == before.map_values(
                            |e: FileRefEntry| file_ref_view(e),
                        ).push(file_ref_view(e)));
                        in_target = false;
                        depth = 0;
                    } else {
                        depth = depth - 1;
                    }
                }
            },
            XmlEvent::Text(t) => {
                if in_target {
                    push_str(&mut text, t.as_str());
                }
            },
            XmlEvent::Other => {},
        }
        i = i + 1;
    }
    assert(evs@.take(evs@.len() as int) == evs@);
    entries
}

/// The message prefixed to a reader error.
pub open spec fn xml_error_message(prefix: Seq<char>, detail: Seq<char>) -> Seq<char> {
    prefix + detail
}

fn xml_error(prefix: &str, detail: String) -> (e: OfdError)
    ensures
        e matches OfdError::Conversion(m) && m@ == xml_error_message(prefix@, detail@),
{
    let mut m = String::from_str(prefix);
    push_str(&mut m, detail.as_str());
    OfdError::Conversion(m)
}

/// Every `FileRef` (or `RootFile`) entry of `SignedInfo.xml`.
pub fn parse_signed_info(xml: &str) -> (r: OfdResult<Vec<FileRefEntry>>)
    ensures
        match xml_tokens(xml@) {
            Ok(evs) => r matches Ok(v) && v@.map_values(|e: FileRefEntry| file_ref_view(e))
                == signed_info_entries(document_events(evs)),
            Err(m) => r matches Err(OfdError::Conversion(e)) && e@ == xml_error_message(
                "SignedInfo XML 解析失败: "@,
                m,
            ),
        },
{
    match read_xml_events(xml) {
        Ok(evs) => Ok(parse_signed_info_events(cook_events(evs.as_slice()).as_slice())),
        Err(m) => Err(xml_error("SignedInfo XML 解析失败: ", m)),
    }
}

/// Reading state of `OFD.xml`: signature paths so far, inside `Signatures`, inside a
/// `SignatureRef`, and its text so far.
pub struct OfdRootState {
    /// Signature paths found.
    pub paths: Seq<Seq<char>>,
    /// Inside a `Signatures` element.
    pub in_signatures: bool,
    /// Inside a `SignatureRef` element.
    pub in_sig_ref: bool,
    /// Text read inside the open `SignatureRef`.
    pub text: Seq<char>,
}

/// The values of every attribute with the given local name, in order.
pub open spec fn all_attrs(attrs: Seq<(Seq<char>, Seq<char>)>, key: Seq<char>) -> Seq<Seq<char>>
    decreases attrs.len(),
{
    if attrs.len() == 0 {
        Seq::empty()
    } else if local_part(attrs.last().0) == key {
        all_attrs(attrs.drop_last(), key).push(attrs.last().1)
    } else {
        all_attrs(attrs.drop_last(), key)
    }
}

/// One event of `OFD.xml`.
pub open spec fn ofd_root_step(s: OfdRootState, ev: XmlEventView) -> OfdRootState {
    match ev {
        XmlEventView::Start(name, attrs, _) => if local_part(name) == "Signatures"@ {
            OfdRootState { in_signatures: true, ..s }
        } else if local_part(name) == "SignatureRef"@ && s.in_signatures {
            OfdRootState { in_sig_ref: true, text: Seq::empty(), ..s }
        } else {
            s
        },
        XmlEventView::Empty(name, attrs) => if local_part(name) == "SignatureRef"@ && s.in_signatures {
            OfdRootState { paths: s.paths + all_attrs(attrs, "BaseLoc"@), ..s }
        } else {
            s
        },
        XmlEventView::Text(t) => if s.in_sig_ref {
            OfdRootState { text: s.text + t, ..s }
        } else {
            s
        },
        XmlEventView::End(n) => if local_part(n) == "SignatureRef"@ && s.in_sig_ref {
            OfdRootState {
                in_sig_ref: false,
                paths: if trim_spec(s.text).len() > 0 {
                    s.paths.push(trim_spec(s.text))
                } else {
                    s.paths
                },
                ..s
            }
        } else if local_part(n) == "Signatures"@ {
            OfdRootState { in_signatures: false, ..s }
        } else {
            s
        },
        XmlEventView::Other => s,
    }
}

/// The reading state after the events `evs`.
pub open spec fn ofd_root_fold(evs: Seq<XmlEventView>) -> OfdRootState
    decreases evs.len(),
{
    if evs.len() == 0 {
        OfdRootState { paths: Seq::empty(), in_signatures: false, in_sig_ref: false, text: Seq::empty() }
    } else {
        ofd_root_step(ofd_root_fold(evs.drop_last()), evs.last())
    }
}

/// The signature paths listed in `OFD.xml`: the trimmed, non-empty text of each
/// `SignatureRef` inside `Signatures`, and the `BaseLoc` attributes of empty `SignatureRef`
/// elements there.
pub open spec fn ofd_root_paths(evs: Seq<XmlEventView>) -> Seq<Seq<char>> {
    ofd_root_fold(evs).paths
}

fn push_all_attrs(out: &mut Vec<SignatureRef>, attrs: &Vec<(String, String)>, key: &str)
    ensures
        final(out)@.map_values(|r: SignatureRef| r.path@) == old(out)@.map_values(
            |r: SignatureRef| r.path@,
        ) + all_attrs(attrs_view(attrs@), key@),
{
    let ghost start = out@.map_values(|r: SignatureRef| r.path@);
    let mut i: usize = 0;
    while i < attrs.len()
        invariant
            i <= attrs@.len(),
            out@.map_values(|r: SignatureRef| r.path@) == start + all_attrs(attrs_view(attrs@.take(i as int)), key@),
        decreases attrs@.len() - i,
    {
        assert(attrs_view(attrs@.take(i + 1)).drop_last() == attrs_view(attrs@.take(i as int)));
        let ghost before = out@;
        let k = local_part_of(attrs[i].0.as_str());
        if str_eq(k.as_str(), key) {
            let r = SignatureRef { path: attrs[i].1.clone() };
            out.push(r);
            assert(out@.map_values(|r: SignatureRef| r.path@) == before.map_values(
                |r: SignatureRef| r.path@,
            ).push(r.path@));
        }
        i = i + 1;
    }
    assert(attrs@.take(attrs@.len() as int) == attrs@);
}

/// The signature paths of the events of `OFD.xml`.
pub fn parse_ofd_root_events(evs: &[XmlEvent]) -> (r: OfdRoot)
    ensures
        r.signatures@.map_values(|r: SignatureRef| r.path@) == ofd_root_paths(events_view(evs@)),
{
    let mut sigs: Vec<SignatureRef> = Vec::new();
    let mut in_signatures = false;
    let mut in_sig_ref = false;
    let mut text = String::new();
    let mut i: usize = 0;
    while i < evs.len()
        invariant
            i <= evs@.len(),
            ({
                let st = ofd_root_fold(events_view(evs@.take(i as int)));
                &&& sigs@.map_values(|r: SignatureRef| r.path@) == st.paths
                &&& in_signatures == st.in_signatures
                &&& in_sig_ref == st.in_sig_ref
                &&& text@ == st.text
            }),
        decreases evs@.len() - i,
    {
        let ghost before = sigs@;
        assert(events_view(evs@.take(i + 1)).drop_last() == events_view(evs@.take(i as int)));
        assert(events_view(evs@.take(i + 1)).last() == event_view(evs@[i as int]));
        match &evs[i] {
            XmlEvent::Start(t) => {
                let name = local_part_of(t.name.as_str());
                if str_eq(name.as_str(), "Signatures") {
                    in_signatures = true;
                } else if str_eq(name.as_str(), "SignatureRef") && in_signatures {
                    in_sig_ref = true;
                    text = String::new();
                }
            },
            XmlEvent::Empty(t) => {
                let name = local_part_of(t.name.as_str());
                if str_eq(name.as_str(), "SignatureRef") && in_signatures {
                    push_all_attrs(&mut sigs, &t.attrs, "BaseLoc");
                }
            },
            XmlEvent::Text(t) => {
                if in_sig_ref {
                    push_str(&mut text, t.as_str());
                }
            },
            XmlEvent::End(n) => {
                let name = local_part_of(n.as_str());
                if str_eq(name.as_str(), "SignatureRef") && in_sig_ref {
                    in_sig_ref = false;
                    let t = trim_string(text.as_str());
                    if chars_of(t.as_str()).len() > 0 {
                        let r = SignatureRef { path: t };
                        sigs.push(r);
                        assert(sigs@.map_values(|r: SignatureRef| r.path@) == before.map_values(
                            |r: SignatureRef| r.path@,
                        ).push(r.path@));
                    }
                } else if str_eq(name.as_str(), "Signatures") {
                    in_signatures = false;
                }
            },
            XmlEvent::Other => {},
        }
        i = i + 1;
    }
    assert(evs@.take(evs@.len() as int) == evs@);
    OfdRoot { signatures: sigs }
}

/// The signature list of `OFD.xml` (empty when it has no `Signatures` element).
pub fn parse_ofd_root(xml: &str) -> (r: OfdResult<OfdRoot>)
    ensures
        match xml_tokens(xml@) {
            Ok(evs) => r matches Ok(root) && root.signatures@.map_values(|r: SignatureRef| r.path@)
                == ofd_root_paths(document_events(evs)),
            Err(m) => r matches Err(OfdError::Conversion(e)) && e@ == xml_error_message(
                "OFD.xml 解析失败: "@,
                m,
            ),
        },
{
    match read_xml_events(xml) {
        Ok(evs) => Ok(parse_ofd_root_events(cook_events(evs.as_slice()).as_slice())),
        Err(m) => Err(xml_error("OFD.xml 解析失败: ", m)),
    }
}

/// The six elements of `Signature.xml` whose text is read.
pub open spec fn is_wanted_tag(t: Seq<char>) -> bool {
    ||| t == "SignedInfoRef"@
    ||| t == "SignedValue"@
    ||| t == "PublicKey"@
    ||| t == "SignatureMethod"@
    ||| t == "Provider"@
    ||| t == "SignatureDateTime"@
}

/// The fields of `Signature.xml`, as texts.
pub struct SignatureTopView {
    /// `SignedInfoRef`.
    pub signed_info_ref: Option<Seq<char>>,
    /// `SignedValue`.
    pub signed_value: Option<Seq<char>>,
    /// `PublicKey`.
    pub public_key: Option<Seq<char>>,
    /// `SignatureMethod`.
    pub method: Option<Seq<char>>,
    /// `Provider`: its tag text after the name, `>` and its text.
    pub provider: Option<Seq<char>>,
    /// `SignatureDateTime`.
    pub datetime: Option<Seq<char>>,
    /// The seal file path.
    pub seal_path: Option<Seq<char>>,
}

/// An optional string as an optional text.
pub open spec fn opt_text(o: Option<String>) -> Option<Seq<char>> {
    match o {
        Some(s) => Some(s@),
        None => None,
    }
}

/// The fields of a `SignatureTop`, as texts.
pub open spec fn top_view(t: SignatureTop) -> SignatureTopView {
    SignatureTopView {
        signed_info_ref: opt_text(t.signed_info_ref),
        signed_value: opt_text(t.signed_value),
        public_key: opt_text(t.public_key),
        method: opt_text(t.method),
        provider: opt_text(t.provider),
        datetime: opt_text(t.datetime),
        seal_path: opt_text(t.seal_path),
    }
}

/// The seal path after reading the attributes of a `Seal` element: `BaseLoc` sets it,
/// `Ref` sets it only while it is unset.
pub open spec fn seal_attrs(attrs: Seq<(Seq<char>, Seq<char>)>, sp: Option<Seq<char>>) -> Option<Seq<char>>
    decreases attrs.len(),
{
    if attrs.len() == 0 {
        sp
    } else {
        let before = seal_attrs(attrs.drop_last(), sp);
        let k = local_part(attrs.last().0);
        if k == "BaseLoc"@ {
            Some(attrs.last().1)
        } else if k == "Ref"@ && before is None {
            Some(attrs.last().1)
        } else {
            before
        }
    }
}

/// Reading state of `Signature.xml`.
pub struct SignatureTopState {
    /// Fields found.
    pub top: SignatureTopView,
    /// Local name of the open wanted element.
    pub current: Seq<char>,
    /// Inside a wanted element.
    pub in_target: bool,
    /// Text read inside it.
    pub text: Seq<char>,
    /// The tag text after the name of the open wanted element.
    pub rest: Seq<char>,
}

/// The value a wanted element gives: its trimmed text; for `Provider`, its whole tag text
/// after the name, `>` and the trimmed text (such as `Version="1.0">easyofd-rust`), from
/// which the element can be written again.
pub open spec fn field_text(tag: Seq<char>, rest: Seq<char>, text: Seq<char>) -> Seq<char> {
    if tag == "Provider"@ {
        rest + ">"@ + trim_spec(text)
    } else {
        trim_spec(text)
    }
}

/// The fields with the one named `tag` set to `v`.
pub open spec fn set_field(t: SignatureTopView, tag: Seq<char>, v: Seq<char>) -> SignatureTopView {
    if tag == "SignedInfoRef"@ {
        SignatureTopView { signed_info_ref: Some(v), ..t }
    } else if tag == "SignedValue"@ {
        SignatureTopView { signed_value: Some(v), ..t }
    } else if tag == "PublicKey"@ {
        SignatureTopView { public_key: Some(v), ..t }
    } else if tag == "SignatureMethod"@ {
        SignatureTopView { method: Some(v), ..t }
    } else if tag == "Provider"@ {
        SignatureTopView { provider: Some(v), ..t }
    } else if tag == "SignatureDateTime"@ {
        SignatureTopView { datetime: Some(v), ..t }
    } else {
        t
    }
}

/// One event of `Signature.xml`.
pub open spec fn signature_top_step(s: SignatureTopState, ev: XmlEventView) -> SignatureTopState {
    match ev {
        XmlEventView::Start(name, attrs, rest) => if is_wanted_tag(local_part(name)) {
            SignatureTopState { in_target: true, current: local_part(name), text: Seq::empty(), rest, ..s }
        } else if local_part(name) == "Seal"@ {
            SignatureTopState {
                top: SignatureTopView { seal_path: seal_attrs(attrs, s.top.seal_path), ..s.top },
                ..s
            }
        } else {
            s
        },
        XmlEventView::Empty(name, attrs) => if local_part(name) == "Seal"@ {
            SignatureTopState {
                top: SignatureTopView { seal_path: seal_attrs(attrs, s.top.seal_path), ..s.top },
                ..s
            }
        } else {
            s
        },
        XmlEventView::Text(t) => if s.in_target {
            SignatureTopState { text: s.text + t, ..s }
        } else {
            s
        },
        XmlEventView::End(n) => if s.in_target && local_part(n) == s.current {
            SignatureTopState {
                in_target: false,
                top: set_field(s.top, s.current, field_text(s.current, s.rest, s.text)),
                ..s
            }
        } else {
            s
        },
        XmlEventView::Other => s,
    }
}

/// The reading state after the events `evs`.
pub open spec fn signature_top_fold(evs: Seq<XmlEventView>) -> SignatureTopState
    decreases evs.len(),
{
    if evs.len() == 0 {
        SignatureTopState {
            top: SignatureTopView {
                signed_info_ref: None,
                signed_value: None,
                public_key: None,
                method: None,
                provider: None,
                datetime: None,
                seal_path: None,
            },
            current: Seq::empty(),
            in_target: false,
            text: Seq::empty(),
            rest: Seq::empty(),
        }
    } else {
        signature_top_step(signature_top_fold(evs.drop_last()), evs.last())
    }
}

/// The fields of `Signature.xml`: the trimmed text of the last occurrence of each wanted
/// element, and the seal path from the `Seal` elements' attributes.
pub open spec fn signature_top_fields(evs: Seq<XmlEventView>) -> SignatureTopView {
    signature_top_fold(evs).top
}

fn seal_attrs_of(attrs: &Vec<(String, String)>, sp: Option<String>) -> (r: Option<String>)
    ensures
        opt_text(r) == seal_attrs(attrs_view(attrs@), opt_text(sp)),
{
    let mut cur = sp;
    let mut i: usize = 0;
    while i < attrs.len()
        invariant
            i <= attrs@.len(),
            opt_text(cur) == seal_attrs(attrs_view(attrs@.take(i as int)), opt_text(sp)),
        decreases attrs@.len() - i,
    {
        assert(attrs_view(attrs@.take(i + 1)).drop_last() == attrs_view(attrs@.take(i as int)));
        let k = local_part_of(attrs[i].0.as_str());
        if str_eq(k.as_str(), "BaseLoc") {
            cur = Some(attrs[i].1.clone());
        } else if str_eq(k.as_str(), "Ref") && cur.is_none() {
            cur = Some(attrs[i].1.clone());
        }
        i = i + 1;
    }
    assert(attrs@.take(attrs@.len() as int) == attrs@);
    cur
}

fn is_wanted_exec(t: &str) -> (b: bool)
    ensures
        b == is_wanted_tag(t@),
{
    str_eq(t, "SignedInfoRef") || str_eq(t, "SignedValue") || str_eq(t, "PublicKey") || str_eq(
        t,
        "SignatureMethod",
    ) || str_eq(t, "Provider") || str_eq(t, "SignatureDateTime")
}

fn set_field_exec(top: &mut SignatureTop, tag: &str, v: String)
    ensures
        top_view(*final(top)) == set_field(top_view(*old(top)), tag@, v@),
{
    if str_eq(tag, "SignedInfoRef") {
        top.signed_info_ref = Some(v);
    } else if str_eq(tag, "SignedValue") {
        top.signed_value = Some(v);
    } else if str_eq(tag, "PublicKey") {
        top.public_key = Some(v);
    } else if str_eq(tag, "SignatureMethod") {
        top.method = Some(v);
    } else if str_eq(tag, "Provider") {
        top.provider = Some(v);
    } else if str_eq(tag, "SignatureDateTime") {
        top.datetime = Some(v);
    }
}

/// The fields of the events of `Signature.xml`.
pub fn parse_signature_top_events(evs: &[XmlEvent]) -> (r: SignatureTop)
    ensures
        top_view(r) == signature_top_fields(events_view(evs@)),
{
    let mut top = SignatureTop::empty();
    let mut current = String::new();
    let mut in_target = false;
    let mut text = String::new();
    let mut rest = String::new();
    let mut i: usize = 0;
    while i < evs.len()
        invariant
            i <= evs@.len(),
            ({
                let st = signature_top_fold(events_view(evs@.take(i as int)));
                &&& top_view(top) == st.top
                &&& current@ == st.current
                &&& in_target == st.in_target
                &&& text@ == st.text
                &&& rest@ == st.rest
            }),
        decreases evs@.len() - i,
    {
        assert(events_view(evs@.take(i + 1)).drop_last() == events_view(evs@.take(i as int)));
        assert(events_view(evs@.take(i + 1)).last() == event_view(evs@[i as int]));
        match &evs[i] {
            XmlEvent::Start(t) => {
                let name = local_part_of(t.name.as_str());
                if is_wanted_exec(name.as_str()) {
                    in_target = true;
                    current = name;
                    text = String::new();
                    rest = t.rest.clone();
                } else if str_eq(name.as_str(), "Seal") {
                    let sp = top.seal_path.clone();
                    top.seal_path = seal_attrs_of(&t.attrs, sp);
                }
            },
            XmlEvent::Empty(t) => {
                let name = local_part_of(t.name.as_str());
                if str_eq(name.as_str(), "Seal") {
                    let sp = top.seal_path.clone();
                    top.seal_path = seal_attrs_of(&t.attrs, sp);
                }
            },
            XmlEvent::Text(t) => {
                if in_target {
                    push_str(&mut text, t.as_str());
                }
            },
            XmlEvent::End(n) => {
                let name = local_part_of(n.as_str());
                if in_target && str_eq(name.as_str(), current.as_str()) {
                    in_target = false;
                    let trimmed = trim_string(text.as_str());
                    let v = if str_eq(current.as_str(), "Provider") {
                        let mut p = rest.clone();
                        push_str(&mut p, ">");
                        push_str(&mut p, trimmed.as_str());
                        p
                    } else {
                        trimmed
                    };
                    set_field_exec(&mut top, current.as_str(), v);
                }
            },
            XmlEvent::Other => {},
        }
        i = i + 1;
    }
    assert(evs@.take(evs@.len() as int) == evs@);
    top
}

/// The fields of `Signature.xml` that verification needs.
pub fn parse_signature_top(xml: &str) -> (r: OfdResult<SignatureTop>)
    ensures
        match xml_tokens(xml@) {
            Ok(evs) => r matches Ok(top) && top_view(top) == signature_top_fields(document_events(evs)),
            Err(m) => r matches Err(OfdError::Conversion(e)) && e@ == xml_error_message(
                "Signature XML 解析失败: "@,
                m,
            ),
        },
{
    match read_xml_events(xml) {
        Ok(evs) => Ok(parse_signature_top_events(cook_events(evs.as_slice()).as_slice())),
        Err(m) => Err(xml_error("Signature XML 解析失败: ", m)),
    }
}

} // verus!
