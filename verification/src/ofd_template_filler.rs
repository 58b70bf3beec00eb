//! Filling `{key}` placeholders in the XML files of a template document.
use vstd::prelude::*;
use crate::archive::{entries_view, read_zip_entries, write_zip_entries, zip_archive, zip_entries, EntryView};
use crate::internal_helpers::{xml_escape, xml_escaped};
use crate::ofd_error::{OfdError, OfdResult};
use crate::ofd_signature_builder::is_xml_extension;
use crate::paths::{extension_of, path_extension, replace_all, replace_all_of};
use crate::text::{push_str, string_bytes, string_from_utf8, utf8_error_text};

verus! {

/// A filled template.
pub struct OfdTemplateFiller {
    output: Vec<u8>,
}

impl View for OfdTemplateFiller {
    /// The filled document's bytes.
    type V = Seq<u8>;

    closed spec fn view(&self) -> Seq<u8> {
        self.output@
    }
}

/// The placeholder for a key: `{key}`.
pub open spec fn placeholder(key: Seq<char>) -> Seq<char> {
    seq!['{'] + key + seq!['}']
}

/// A text with the placeholders of `data` replaced by the escaped values, one pair after the
/// other in order.
pub open spec fn fill_text(t: Seq<char>, data: Seq<(Seq<char>, Seq<char>)>) -> Seq<char>
    decreases data.len(),
{
    if data.len() == 0 {
        t
    } else {
        replace_all(fill_text(t, data.drop_last()), placeholder(data.last().0), xml_escaped(data.last().1))
    }
}

/// The pairs as plain values.
pub open spec fn pairs_view(data: Seq<(String, String)>) -> Seq<(Seq<char>, Seq<char>)> {
    data.map_values(|p: (String, String)| (p.0@, p.1@))
}

/// An entry of the template filled: XML files (extension `xml` in any case) must be UTF-8
/// and get their placeholders replaced; other files stay as they are. `Err` carries the
/// message `name: error` for an XML file that is not UTF-8.
pub open spec fn fill_entry(e: EntryView, data: Seq<(Seq<char>, Seq<char>)>) -> Result<EntryView, Seq<char>> {
    let is_xml = match path_extension(e.0) {
        Some(x) => is_xml_extension(x),
        None => false,
    };
    if is_xml {
        if vstd::utf8::valid_utf8(e.1) {
            Ok((e.0, vstd::utf8::encode_utf8(fill_text(vstd::utf8::decode_utf8(e.1), data))))
        } else {
            Err(e.0 + ": "@ + utf8_error_text(e.1))
        }
    } else {
        Ok(e)
    }
}

/// The entries filled in order, or the message of the first that fails.
pub open spec fn fill_entries(es: Seq<EntryView>, data: Seq<(Seq<char>, Seq<char>)>) -> Result<Seq<EntryView>, Seq<char>>
    decreases es.len(),
{
    if es.len() == 0 {
        Ok(Seq::empty())
    } else {
        match fill_entries(es.drop_last(), data) {
            Err(m) => Err(m),
            Ok(prev) => match fill_entry(es.last(), data) {
                Err(m) => Err(m),
                Ok(e) => Ok(prev.push(e)),
            },
        }
    }
}

/// Filling a template package: `Err(Some(m))` for an XML file that is not UTF-8 (an `Xml`
/// error), `Err(None)` for an archive error.
pub open spec fn fill_outcome(template: Seq<u8>, data: Seq<(Seq<char>, Seq<char>)>) -> Result<Seq<u8>, Option<Seq<char>>> {
    match zip_entries(template) {
        None => Err(None),
        Some(es) => match fill_entries(es, data) {
            Err(m) => Err(Some(m)),
            Ok(filled) => match zip_archive(filled) {
                None => Err(None),
                Some(b) => Ok(b),
            },
        },
    }
}

/// Replaces the placeholders of `data` in a text.
pub fn fill_placeholders(text: &str, data: &[(String, String)]) -> (r: String)
    ensures
        r@ == fill_text(text@, pairs_view(data@)),
{
    let ghost dv = pairs_view(data@);
    let mut out = String::from_str(text);
    let mut i: usize = 0;
    while i < data.len()
        invariant
            i <= data@.len(),
            dv == pairs_view(data@),
            out@ == fill_text(text@, dv.take(i as int)),
        decreases data@.len() - i,
    {
        assert(dv.take(i + 1).drop_last() == dv.take(i as int));
        assert(dv.take(i + 1).last() == (data@[i as int].0@, data@[i as int].1@));
        let mut p = String::from_str("{");
        push_str(&mut p, data[i].0.as_str());
        push_str(&mut p, "}");
        proof {
            reveal_strlit("{");
            reveal_strlit("}");
        }
        assert(p@ == placeholder(data@[i as int].0@));
        let v = xml_escape(data[i].1.as_str());
        out = replace_all_of(out.as_str(), p.as_str(), v.as_str());
        i = i + 1;
    }
    assert(dv.take(dv.len() as int) == dv);
    out
}

fn is_xml_name(name: &str) -> (b: bool)
    ensures
        b == match path_extension(name@) {
            Some(x) => is_xml_extension(x),
            None => false,
        },
{
    match extension_of(name) {
        Some(e) => {
            let cs = crate::text::chars_of(e.as_str());
            cs.len() == 3 && (cs[0] == 'x' || cs[0] == 'X') && (cs[1] == 'm' || cs[1] == 'M') && (cs[2]
                == 'l' || cs[2] == 'L')
        },
        None => false,
    }
}

fn copy_bytes(b: &[u8]) -> (r: Vec<u8>)
    ensures
        r@ == b@,
{
    let mut v: Vec<u8> = Vec::new();
    crate::der_tlv::extend_bytes(&mut v, b);
    v
}

fn fill_one(e: &(String, Vec<u8>), data: &[(String, String)]) -> (r: Result<(String, Vec<u8>), OfdError>)
    ensures
        match fill_entry((e.0@, e.1@), pairs_view(data@)) {
            Ok(x) => r matches Ok(y) && (y.0@, y.1@) == x,
            Err(m) => r matches Err(OfdError::Xml(t)) && t@ == m,
        },
{
    if is_xml_name(e.0.as_str()) {
        match string_from_utf8(copy_bytes(e.1.as_slice())) {
            Ok(text) => {
                let filled = fill_placeholders(text.as_str(), data);
                Ok((String::from_str(e.0.as_str()), string_bytes(filled.as_str())))
            },
            Err(detail) => {
                let mut m = String::from_str(e.0.as_str());
                push_str(&mut m, ": ");
                push_str(&mut m, detail.as_str());
                Err(OfdError::Xml(m))
            },
        }
    } else {
        Ok((String::from_str(e.0.as_str()), copy_bytes(e.1.as_slice())))
    }
}

impl OfdTemplateFiller {
    /// Fills a template package held in memory: in every XML file, each `{key}` of `data`
    /// becomes the XML-escaped value, pair after pair in order; other files are copied.
    pub fn fill_bytes(template_bytes: &[u8], data: &[(String, String)]) -> (r: OfdResult<Self>)
        ensures
            match fill_outcome(template_bytes@, pairs_view(data@)) {
                Ok(b) => r matches Ok(f) && f@ == b,
                Err(Some(m)) => r matches Err(OfdError::Xml(t)) && t@ == m,
                Err(None) => r is Err,
            },
            r matches Ok(f) ==> zip_entries(template_bytes@) matches Some(es) && fill_entries(
                es,
                pairs_view(data@),
            ) matches Ok(filled) && zip_entries(f@) == Some(filled),
    {
        let entries = match read_zip_entries(template_bytes) {
            Ok(e) => e,
            Err(e) => return Err(e),
        };
        let ghost es = entries_view(entries@);
        let ghost dv = pairs_view(data@);
        let mut out: Vec<(String, Vec<u8>)> = Vec::new();
        let mut i: usize = 0;
        assert(es.take(0) =~= Seq::<EntryView>::empty());
        assert(entries_view(out@) =~= Seq::<EntryView>::empty());
        while i < entries.len()
            invariant
                i <= entries@.len(),
                es == entries_view(entries@),
                zip_entries(template_bytes@) == Some(es),
                dv == pairs_view(data@),
                fill_entries(es.take(i as int), dv) == Ok::<Seq<EntryView>, Seq<char>>(entries_view(out@)),
            decreases entries@.len() - i,
        {
            assert(es.take(i + 1).drop_last() == es.take(i as int));
            assert(es.take(i + 1).last() == (entries@[i as int].0@, entries@[i as int].1@));
            match fill_one(&entries[i], data) {
                Ok(x) => {
                    let ghost xv = (x.0@, x.1@);
                    let ghost prev = entries_view(out@);
                    out.push(x);
                    assert(entries_view(out@) == prev.push(xv));
                },
                Err(e) => {
                    proof {
                        lemma_fill_err(es, dv, (i + 1) as nat);
                    }
                    return Err(e);
                },
            }
            i = i + 1;
        }
        assert(es.take(es.len() as int) == es);
        match write_zip_entries(out.as_slice()) {
            Ok(b) => Ok(OfdTemplateFiller { output: b }),
            Err(e) => Err(e),
        }
    }

    /// The filled document's bytes, consuming the filler.
    pub fn into_bytes(self) -> (r: Vec<u8>)
        ensures
            r@ == self@,
    {
        self.output
    }
}

/// Once an entry fails, filling every longer prefix fails with its message.
proof fn lemma_fill_err(es: Seq<EntryView>, data: Seq<(Seq<char>, Seq<char>)>, k: nat)
    requires
        k <= es.len(),
        fill_entries(es.take(k as int), data) is Err,
    ensures
        fill_entries(es, data) == fill_entries(es.take(k as int), data),
    decreases es.len() - k,
{
    if k < es.len() {
        assert(es.take((k + 1) as int).drop_last() == es.take(k as int));
        lemma_fill_err(es, data, k + 1);
    } else {
        assert(es.take(k as int) == es);
    }
}

} // verus!
