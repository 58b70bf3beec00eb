//! Documents signed by several signers: the text helpers that carry fields from one XML file
//! to another and list the signatures in `OFD.xml`.
use vstd::prelude::*;
use crate::algorithm::SignatureAlgorithm;
use crate::archive::{entries_view, write_zip_entries, zip_archive, zip_entries, EntryView};
use crate::numtext::{decimal_chars, push_usize};
use crate::ofd_error::{OfdError, OfdResult};
use crate::ofd_signature_builder::{
    build_signed_info, file_refs_text, key_error_message, method_name, signed_info_text, text_or, verifies_spec,
};
use crate::internal_helpers::hex_text;
use crate::sm2_sig::{sm2_public_key, sm2_public_key_of, sm2_sign, sm2_signature_of};
use crate::text::{
    chars_of, ends_with, ends_with_spec, find_chars, find_from, find_in, push_str, string_bytes,
    string_from_utf8_lossy, substring_of, utf8_lossy,
};

verus! {

/// One signer of a multi-signer document: its SM2 secret key (32 bytes) and the images of
/// its seals.
#[derive(Debug)]
pub struct SignerEntry {
    /// The signer's SM2 secret key.
    pub secret_key: Vec<u8>,
    /// The images of the signer's seals.
    pub seal_images: Vec<Vec<u8>>,
}

/// The text between the first `start` and the first `end` after it.
pub open spec fn between(xml: Seq<char>, start: Seq<char>, end: Seq<char>) -> Option<Seq<char>> {
    match find_in(xml, start) {
        None => None,
        Some(i) => {
            let s = i + start.len();
            match find_from(xml, end, s) {
                None => None,
                Some(e) => Some(xml.subrange(s, e)),
            }
        },
    }
}

/// The text between the first `start` and the first `end` after it, if both occur.
pub fn extract_between(xml: &str, start: &str, end: &str) -> (r: Option<String>)
    ensures
        match between(xml@, start@, end@) {
            Some(t) => r matches Some(s) && s@ == t,
            None => r is None,
        },
{
    let xs = chars_of(xml);
    let ss = chars_of(start);
    let es = chars_of(end);
    let i = match find_chars(xs.as_slice(), ss.as_slice(), 0) {
        Some(i) => i,
        None => return None,
    };
    proof {
        lemma_find_from_bounds(xs@, ss@, 0);
    }
    assert(xs@.len() == xs.len());
    let s = i + ss.len();
    let e = match find_chars(xs.as_slice(), es.as_slice(), s) {
        Some(e) => e,
        None => return None,
    };
    proof {
        lemma_find_from_bounds(xs@, es@, s as int);
    }
    Some(substring_of(xs.as_slice(), s, e))
}

/// A found index lies at or after the start and leaves room for the pattern.
pub proof fn lemma_find_from_bounds(s: Seq<char>, pat: Seq<char>, i: int)
    ensures
        find_from(s, pat, i) matches Some(j) ==> i <= j && j + pat.len() <= s.len(),
    decreases s.len() + 1 - i,
{
    if !(i < 0 || i + pat.len() > s.len()) && !crate::text::matches_at(s, pat, i) {
        lemma_find_from_bounds(s, pat, i + 1);
    }
}

/// The lines of a `Signatures` element listing `refs`.
pub open spec fn signature_ref_lines(refs: Seq<Seq<char>>) -> Seq<char>
    decreases refs.len(),
{
    if refs.len() == 0 {
        Seq::empty()
    } else {
        signature_ref_lines(refs.drop_last()) + "    <ofd:SignatureRef>"@ + refs.last()
            + "</ofd:SignatureRef>\n"@
    }
}

/// The `Signatures` element listing `refs`, one per line.
pub open spec fn signatures_element(refs: Seq<Seq<char>>) -> Seq<char> {
    "  <ofd:Signatures>\n"@ + signature_ref_lines(refs) + "  </ofd:Signatures>\n"@
}

/// `OFD.xml` with the `Signatures` element for `refs`: it replaces an existing one (from
/// `<ofd:Signatures` to the first `</ofd:Signatures>` after it), or goes before the first
/// `</ofd:DocBody>`, or else before the first `</ofd:OFD>`, or else at the end.
pub open spec fn with_signatures_element(ofd_xml: Seq<char>, refs: Seq<Seq<char>>) -> Seq<char> {
    let block = signatures_element(refs);
    let open = "<ofd:Signatures"@;
    let close = "</ofd:Signatures>"@;
    let start = find_in(ofd_xml, open);
    if start is Some && find_from(ofd_xml, close, start.unwrap()) is Some {
        let end = find_from(ofd_xml, close, start.unwrap()).unwrap() + close.len();
        ofd_xml.subrange(0, start.unwrap()) + block + ofd_xml.subrange(end, ofd_xml.len() as int)
    } else {
        match find_in(ofd_xml, "</ofd:DocBody>"@) {
            Some(pos) => ofd_xml.subrange(0, pos) + block + ofd_xml.subrange(pos, ofd_xml.len() as int),
            None => match find_in(ofd_xml, "</ofd:OFD>"@) {
                Some(pos) => ofd_xml.subrange(0, pos) + block + ofd_xml.subrange(
                    pos,
                    ofd_xml.len() as int,
                ),
                None => ofd_xml + block,
            },
        }
    }
}

fn build_signatures_element(signature_refs: &[String]) -> (r: String)
    ensures
        r@ == signatures_element(signature_refs@.map_values(|s: String| s@)),
{
    let ghost refs = signature_refs@.map_values(|s: String| s@);
    let mut out = String::from_str("  <ofd:Signatures>\n");
    let mut i: usize = 0;
    while i < signature_refs.len()
        invariant
            i <= signature_refs@.len(),
            refs == signature_refs@.map_values(|s: String| s@),
            out@ == "  <ofd:Signatures>\n"@ + signature_ref_lines(refs.take(i as int)),
        decreases signature_refs@.len() - i,
    {
        assert(refs.take(i + 1).drop_last() == refs.take(i as int));
        assert(refs.take(i + 1).last() == signature_refs@[i as int]@);
        push_str(&mut out, "    <ofd:SignatureRef>");
        push_str(&mut out, signature_refs[i].as_str());
        push_str(&mut out, "</ofd:SignatureRef>\n");
        i = i + 1;
    }
    assert(refs.take(refs.len() as int) == refs);
    push_str(&mut out, "  </ofd:Signatures>\n");
    out
}

fn splice(xs: &[char], cut: usize, resume: usize, block: &str) -> (r: String)
    requires
        cut <= resume <= xs@.len(),
    ensures
        r@ == xs@.subrange(0, cut as int) + block@ + xs@.subrange(resume as int, xs@.len() as int),
{
    let mut r = substring_of(xs, 0, cut);
    push_str(&mut r, block);
    let tail = substring_of(xs, resume, xs.len());
    push_str(&mut r, tail.as_str());
    r
}

/// Puts the `Signatures` element for `signature_refs` into `OFD.xml`.
pub fn inject_signatures_element(ofd_xml: &str, signature_refs: &[String]) -> (r: String)
    ensures
        r@ == with_signatures_element(ofd_xml@, signature_refs@.map_values(|s: String| s@)),
{
    let block = build_signatures_element(signature_refs);
    let xs = chars_of(ofd_xml);
    let open = chars_of("<ofd:Signatures");
    let close = chars_of("</ofd:Signatures>");
    let first = find_chars(xs.as_slice(), open.as_slice(), 0);
    proof {
        lemma_find_from_bounds(xs@, open@, 0);
    }
    match first {
        Some(start) => {
            match find_chars(xs.as_slice(), close.as_slice(), start) {
                Some(e) => {
                    proof {
                        lemma_find_from_bounds(xs@, close@, start as int);
                    }
                    assert(xs@.len() == xs.len());
                    return splice(xs.as_slice(), start, e + close.len(), block.as_str());
                },
                None => {},
            }
        },
        None => {},
    }
    assert(!(find_in(xs@, open@) is Some && find_from(xs@, close@, find_in(xs@, open@).unwrap()) is Some));
    let body = chars_of("</ofd:DocBody>");
    if let Some(pos) = find_chars(xs.as_slice(), body.as_slice(), 0) {
        proof {
            lemma_find_from_bounds(xs@, body@, 0);
        }
        return splice(xs.as_slice(), pos, pos, block.as_str());
    }
    let ofd_close = chars_of("</ofd:OFD>");
    if let Some(pos) = find_chars(xs.as_slice(), ofd_close.as_slice(), 0) {
        proof {
            lemma_find_from_bounds(xs@, ofd_close@, 0);
        }
        return splice(xs.as_slice(), pos, pos, block.as_str());
    }
    let mut r = String::from_str(ofd_xml);
    push_str(&mut r, block.as_str());
    r
}


// ---- one signature description per signer ----

/// The `Seal` element of seal `i` of signer `idx`.
pub open spec fn indexed_seal_ref_text(idx: nat, i: nat) -> Seq<char> {
    "<ofd:Seal ID=\"Seal_"@ + decimal_chars(idx) + "_"@ + decimal_chars(i)
        + "\" Type=\"Seal\">Doc_0/Res/Seal_"@ + decimal_chars(idx) + "_"@ + decimal_chars(i)
        + ".png</ofd:Seal>"@
}

/// The `Seal` elements of the first `n` seals of signer `idx`.
pub open spec fn indexed_seal_refs_text(idx: nat, n: nat) -> Seq<char>
    decreases n,
{
    if n == 0 {
        Seq::empty()
    } else {
        indexed_seal_refs_text(idx, (n - 1) as nat) + indexed_seal_ref_text(idx, (n - 1) as nat)
    }
}

/// The signature description of signer `idx`: its own file names, provider, method and time
/// cut out of the signed description (the provider text starts after `<ofd:Provider`, so it
/// keeps the attribute), its seals, public key and signature value.
pub open spec fn indexed_signature_xml_text(si: Seq<char>, n_seals: nat, idx: nat, pub_hex: Seq<char>, sig_hex: Seq<char>) -> Seq<char> {
    let method = text_or(between(si, "<ofd:SignatureMethod>"@, "</ofd:SignatureMethod>"@), "SM2WithSM3"@);
    let provider = text_or(between(si, "<ofd:Provider"@, "</ofd:Provider>"@), "easyofd-rust"@);
    let datetime = text_or(between(si, "<ofd:SignatureDateTime>"@, "</ofd:SignatureDateTime>"@), Seq::empty());
    "<?xml version=\"1.0\" encoding=\"UTF-8\"?>\n<ofd:Signature xmlns:ofd=\"http://www.ofdspec.org/2016\" ID=\"Signature_"@
        + decimal_chars(idx) + "\">\n  <ofd:SignedInfoRef>Doc_0/Signs/SignedInfo_"@ + decimal_chars(idx)
        + ".xml</ofd:SignedInfoRef>\n  <ofd:SignedValue>Doc_0/Signs/SignedValue_"@ + decimal_chars(idx)
        + ".dat</ofd:SignedValue>\n  <ofd:Provider Version=\"1.0\">"@ + provider
        + "</ofd:Provider>\n  <ofd:SignatureMethod>"@ + method
        + "</ofd:SignatureMethod>\n  <ofd:SignatureDateTime>"@ + datetime
        + "</ofd:SignatureDateTime>\n  "@ + indexed_seal_refs_text(idx, n_seals)
        + "\n  <ofd:PublicKey>"@ + pub_hex + "</ofd:PublicKey>\n  <ofd:SignatureValue>"@ + sig_hex
        + "</ofd:SignatureValue>\n</ofd:Signature>"@
}

fn push_between_or(out: &mut String, xml: &str, start: &str, end: &str, d: &str)
    ensures
        final(out)@ == old(out)@ + text_or(between(xml@, start@, end@), d@),
{
    match extract_between(xml, start, end) {
        Some(t) => push_str(out, t.as_str()),
        None => push_str(out, d),
    }
}

fn push_indexed_seal_refs(out: &mut String, idx: usize, n: usize)
    ensures
        final(out)@ == old(out)@ + indexed_seal_refs_text(idx as nat, n as nat),
{
    let ghost start = out@;
    let mut i: usize = 0;
    while i < n
        invariant
            i <= n,
            out@ == start + indexed_seal_refs_text(idx as nat, i as nat),
        decreases n - i,
    {
        push_str(out, "<ofd:Seal ID=\"Seal_");
        push_usize(out, idx);
        push_str(out, "_");
        push_usize(out, i);
        push_str(out, "\" Type=\"Seal\">Doc_0/Res/Seal_");
        push_usize(out, idx);
        push_str(out, "_");
        push_usize(out, i);
        push_str(out, ".png</ofd:Seal>");
        i = i + 1;
    }
}

/// Builds the signature description of signer `sig_index`.
pub fn build_indexed_signature_xml(
    signed_info_xml: &str,
    seal_images: &[Vec<u8>],
    sig_index: usize,
    pub_hex: &str,
    sig_hex: &str,
) -> (r: String)
    ensures
        r@ == indexed_signature_xml_text(signed_info_xml@, seal_images@.len(), sig_index as nat, pub_hex@, sig_hex@),
{
    let mut s = String::from_str("<?xml version=\"1.0\" encoding=\"UTF-8\"?>\n<ofd:Signature xmlns:ofd=\"http://www.ofdspec.org/2016\" ID=\"Signature_");
    push_usize(&mut s, sig_index);
    push_str(&mut s, "\">\n  <ofd:SignedInfoRef>Doc_0/Signs/SignedInfo_");
    push_usize(&mut s, sig_index);
    push_str(&mut s, ".xml</ofd:SignedInfoRef>\n  <ofd:SignedValue>Doc_0/Signs/SignedValue_");
    push_usize(&mut s, sig_index);
    push_str(&mut s, ".dat</ofd:SignedValue>\n  <ofd:Provider Version=\"1.0\">");
    push_between_or(&mut s, signed_info_xml, "<ofd:Provider", "</ofd:Provider>", "easyofd-rust");
    push_str(&mut s, "</ofd:Provider>\n  <ofd:SignatureMethod>");
    push_between_or(&mut s, signed_info_xml, "<ofd:SignatureMethod>", "</ofd:SignatureMethod>", "SM2WithSM3");
    push_str(&mut s, "</ofd:SignatureMethod>\n  <ofd:SignatureDateTime>");
    proof {
        reveal_strlit("");
    }
    push_between_or(&mut s, signed_info_xml, "<ofd:SignatureDateTime>", "</ofd:SignatureDateTime>", "");
    push_str(&mut s, "</ofd:SignatureDateTime>\n  ");
    push_indexed_seal_refs(&mut s, sig_index, seal_images.len());
    push_str(&mut s, "\n  <ofd:PublicKey>");
    push_str(&mut s, pub_hex);
    push_str(&mut s, "</ofd:PublicKey>\n  <ofd:SignatureValue>");
    push_str(&mut s, sig_hex);
    push_str(&mut s, "</ofd:SignatureValue>\n</ofd:Signature>");
    s
}

// ---- signing by several signers ----

/// `OFD.xml` files are those whose path ends with `OFD.xml`.
pub open spec fn is_ofd_xml_name(n: Seq<char>) -> bool {
    ends_with_spec(n, "OFD.xml"@)
}

/// Path of the signature description of signer `i`.
pub open spec fn signature_ref_path(i: nat) -> Seq<char> {
    "Doc_0/Signs/Signature_"@ + decimal_chars(i) + ".xml"@
}

/// The signature description paths of `n` signers.
pub open spec fn signature_ref_paths(n: nat) -> Seq<Seq<char>> {
    Seq::new(n, |i: int| signature_ref_path(i as nat))
}

/// An entry with the `Signatures` list put in when it is an `OFD.xml` (read as lossy
/// UTF-8).
pub open spec fn with_signature_list(e: EntryView, refs: Seq<Seq<char>>) -> EntryView {
    if is_ofd_xml_name(e.0) {
        (e.0, vstd::utf8::encode_utf8(with_signatures_element(utf8_lossy(e.1), refs)))
    } else {
        e
    }
}

/// The entries as the signatures protect them: every `OFD.xml` lists the signatures.
pub open spec fn listed_entries(es: Seq<EntryView>, refs: Seq<Seq<char>>) -> Seq<EntryView> {
    es.map_values(|e: EntryView| with_signature_list(e, refs))
}

/// The entries other than `OFD.xml` files, in order.
pub open spec fn non_ofd_entries(es: Seq<EntryView>) -> Seq<EntryView>
    decreases es.len(),
{
    if es.len() == 0 {
        Seq::empty()
    } else if is_ofd_xml_name(es.last().0) {
        non_ofd_entries(es.drop_last())
    } else {
        non_ofd_entries(es.drop_last()).push(es.last())
    }
}

/// The bytes of the first entry named `n`.
pub open spec fn first_named(es: Seq<EntryView>, n: Seq<char>) -> Option<Seq<u8>>
    decreases es.len(),
{
    if es.len() == 0 {
        None
    } else if es[0].0 == n {
        Some(es[0].1)
    } else {
        first_named(es.skip(1), n)
    }
}

/// For each `OFD.xml` of `es` in order, its path with the bytes of the first entry of that
/// path in `listed`.
pub open spec fn ofd_outputs(es: Seq<EntryView>, listed: Seq<EntryView>) -> Seq<EntryView>
    decreases es.len(),
{
    if es.len() == 0 {
        Seq::empty()
    } else if is_ofd_xml_name(es.last().0) {
        match first_named(listed, es.last().0) {
            Some(d) => ofd_outputs(es.drop_last(), listed).push((es.last().0, d)),
            None => ofd_outputs(es.drop_last(), listed),
        }
    } else {
        ofd_outputs(es.drop_last(), listed)
    }
}

/// The seal images of signer `idx`, at `Doc_0/Res/Seal_idx_i.png`.
pub open spec fn signer_seal_entries(idx: nat, images: Seq<Vec<u8>>) -> Seq<EntryView>
    decreases images.len(),
{
    if images.len() == 0 {
        Seq::empty()
    } else {
        signer_seal_entries(idx, images.drop_last()).push(
            (
                "Doc_0/Res/Seal_"@ + decimal_chars(idx) + "_"@ + decimal_chars((images.len() - 1) as nat)
                    + ".png"@,
                images.last()@,
            ),
        )
    }
}

/// The signed description of a signer, as bytes.
pub open spec fn signer_message(listed: Seq<EntryView>, s: SignerEntry, alg: SignatureAlgorithm, time: Seq<char>) -> Seq<u8> {
    vstd::utf8::encode_utf8(signed_info_text(method_name(alg), time, s.seal_images@.len(), file_refs_text(listed)))
}

/// A signer's signature value verifies its signed description under the signer's public
/// key.
pub open spec fn signer_verifies(listed: Seq<EntryView>, s: SignerEntry, alg: SignatureAlgorithm, time: Seq<char>) -> bool {
    &&& sm2_signature_of(s.secret_key@, signer_message(listed, s, alg, time)) matches Ok(sig)
    &&& sm2_public_key_of(s.secret_key@) matches Ok(pk)
    &&& verifies_spec(signer_message(listed, s, alg, time), sig, pk)
}

/// The files of signer `idx`: seal images, signature value, signed description and signature
/// description; or the message of a refused key.
pub open spec fn one_signer_files(
    listed: Seq<EntryView>,
    s: SignerEntry,
    idx: nat,
    alg: SignatureAlgorithm,
    time: Seq<char>,
) -> Result<Seq<EntryView>, Seq<char>> {
    let si = signed_info_text(method_name(alg), time, s.seal_images@.len(), file_refs_text(listed));
    let msg = vstd::utf8::encode_utf8(si);
    match sm2_signature_of(s.secret_key@, msg) {
        Err(m) => Err(key_error_message(m)),
        Ok(sig) => match sm2_public_key_of(s.secret_key@) {
            Err(m) => Err(key_error_message(m)),
            Ok(pk) => Ok(signer_seal_entries(idx, s.seal_images@) + seq![
                ("Doc_0/Signs/SignedValue_"@ + decimal_chars(idx) + ".dat"@, sig),
                ("Doc_0/Signs/SignedInfo_"@ + decimal_chars(idx) + ".xml"@, msg),
                (
                    signature_ref_path(idx),
                    vstd::utf8::encode_utf8(
                        indexed_signature_xml_text(si, s.seal_images@.len(), idx, hex_text(pk), hex_text(sig)),
                    ),
                ),
            ]),
        },
    }
}

/// The files of all signers in order, or the message of the first refused key.
pub open spec fn signers_files(
    listed: Seq<EntryView>,
    signers: Seq<SignerEntry>,
    alg: SignatureAlgorithm,
    time: Seq<char>,
) -> Result<Seq<EntryView>, Seq<char>>
    decreases signers.len(),
{
    if signers.len() == 0 {
        Ok(Seq::empty())
    } else {
        match signers_files(listed, signers.drop_last(), alg, time) {
            Err(m) => Err(m),
            Ok(prev) => match one_signer_files(listed, signers.last(), (signers.len() - 1) as nat, alg, time) {
                Err(m) => Err(m),
                Ok(fs) => Ok(prev + fs),
            },
        }
    }
}

/// What signing by several signers gives: the package (entries other than `OFD.xml`, the
/// signers' files, then each `OFD.xml` with the signature list) and the signature paths; an
/// error is `Some(message)` for a refused key and `None` for an archive error.
pub open spec fn multi_outcome(
    es: Seq<EntryView>,
    signers: Seq<SignerEntry>,
    alg: SignatureAlgorithm,
    time: Seq<char>,
) -> Result<(Seq<u8>, Seq<Seq<char>>), Option<Seq<char>>> {
    let refs = signature_ref_paths(signers.len());
    let listed = listed_entries(es, refs);
    match signers_files(listed, signers, alg, time) {
        Err(m) => Err(Some(m)),
        Ok(files) => match zip_archive(non_ofd_entries(es) + files + ofd_outputs(es, listed)) {
            None => Err(None),
            Some(d) => Ok((d, refs)),
        },
    }
}

/// A package signed by several signers checks out: read back, it holds the entries other
/// than `OFD.xml`, every signer's files and the `OFD.xml` files listing the signatures; and
/// every signer's signature value verifies its signed description under its public key.
pub open spec fn multi_package_verifies(
    pkg: Seq<u8>,
    es: Seq<EntryView>,
    signers: Seq<SignerEntry>,
    alg: SignatureAlgorithm,
    time: Seq<char>,
) -> bool {
    let listed = listed_entries(es, signature_ref_paths(signers.len()));
    &&& signers_files(listed, signers, alg, time) matches Ok(files)
    &&& zip_entries(pkg) == Some(non_ofd_entries(es) + files + ofd_outputs(es, listed))
    &&& forall|i: int| 0 <= i < signers.len() ==> signer_verifies(listed, #[trigger] signers[i], alg, time)
}

fn push_entry(out: &mut Vec<(String, Vec<u8>)>, name: String, data: Vec<u8>)
    ensures
        entries_view(final(out)@) == entries_view(old(out)@).push((name@, data@)),
{
    out.push((name, data));
    assert(entries_view(out@) == entries_view(old(out)@).push((name@, data@)));
}

fn copy_bytes(b: &[u8]) -> (r: Vec<u8>)
    ensures
        r@ == b@,
{
    let mut v: Vec<u8> = Vec::new();
    crate::der_tlv::extend_bytes(&mut v, b);
    v
}

fn signature_refs(n: usize) -> (r: Vec<String>)
    ensures
        r@.map_values(|s: String| s@) == signature_ref_paths(n as nat),
{
    let mut out: Vec<String> = Vec::new();
    let mut i: usize = 0;
    while i < n
        invariant
            i <= n,
            out@.map_values(|s: String| s@) == signature_ref_paths(i as nat),
        decreases n - i,
    {
        let mut p = String::from_str("Doc_0/Signs/Signature_");
        push_usize(&mut p, i);
        push_str(&mut p, ".xml");
        let ghost pv = p@;
        let ghost prev = out@.map_values(|s: String| s@);
        out.push(p);
        assert(out@.map_values(|s: String| s@) =~= prev.push(pv));
        assert(signature_ref_paths((i + 1) as nat) =~= signature_ref_paths(i as nat).push(
            signature_ref_path(i as nat),
        ));
        i = i + 1;
    }
    out
}

fn list_signatures(es: &[(String, Vec<u8>)], refs: &[String]) -> (r: Vec<(String, Vec<u8>)>)
    ensures
        entries_view(r@) == listed_entries(entries_view(es@), refs@.map_values(|s: String| s@)),
{
    let ghost rv = refs@.map_values(|s: String| s@);
    let mut out: Vec<(String, Vec<u8>)> = Vec::new();
    let mut i: usize = 0;
    while i < es.len()
        invariant
            i <= es@.len(),
            rv == refs@.map_values(|s: String| s@),
            entries_view(out@) == listed_entries(entries_view(es@.take(i as int)), rv),
        decreases es@.len() - i,
    {
        let ghost ev = (es@[i as int].0@, es@[i as int].1@);
        let ghost prev = entries_view(out@);
        if ends_with(es[i].0.as_str(), "OFD.xml") {
            let text = string_from_utf8_lossy(es[i].1.as_slice());
            let listed = inject_signatures_element(text.as_str(), refs);
            push_entry(&mut out, String::from_str(es[i].0.as_str()), string_bytes(listed.as_str()));
        } else {
            push_entry(&mut out, String::from_str(es[i].0.as_str()), copy_bytes(es[i].1.as_slice()));
        }
        assert(entries_view(out@) == prev.push(with_signature_list(ev, rv)));
        assert(entries_view(es@.take(i + 1)) == entries_view(es@.take(i as int)).push(ev));
        assert(listed_entries(entries_view(es@.take(i + 1)), rv) =~= listed_entries(
            entries_view(es@.take(i as int)),
            rv,
        ).push(with_signature_list(ev, rv)));
        i = i + 1;
    }
    assert(es@.take(es@.len() as int) == es@);
    out
}

fn push_non_ofd(out: &mut Vec<(String, Vec<u8>)>, es: &[(String, Vec<u8>)])
    ensures
        entries_view(final(out)@) == entries_view(old(out)@) + non_ofd_entries(entries_view(es@)),
{
    let ghost start = entries_view(out@);
    let mut i: usize = 0;
    while i < es.len()
        invariant
            i <= es@.len(),
            entries_view(out@) == start + non_ofd_entries(entries_view(es@.take(i as int))),
        decreases es@.len() - i,
    {
        let ghost ev = (es@[i as int].0@, es@[i as int].1@);
        assert(entries_view(es@.take(i + 1)).drop_last() == entries_view(es@.take(i as int)));
        assert(entries_view(es@.take(i + 1)).last() == ev);
        if !ends_with(es[i].0.as_str(), "OFD.xml") {
            push_entry(out, String::from_str(es[i].0.as_str()), copy_bytes(es[i].1.as_slice()));
        }
        i = i + 1;
    }
    assert(es@.take(es@.len() as int) == es@);
}

fn find_first_named<'a>(es: &'a [(String, Vec<u8>)], name: &str) -> (r: Option<&'a Vec<u8>>)
    ensures
        match first_named(entries_view(es@), name@) {
            Some(b) => r matches Some(v) && v@ == b,
            None => r is None,
        },
{
    let mut i: usize = 0;
    assert(es@.skip(0) == es@);
    while i < es.len()
        invariant
            i <= es@.len(),
            first_named(entries_view(es@.skip(i as int)), name@) == first_named(entries_view(es@), name@),
        decreases es@.len() - i,
    {
        assert(entries_view(es@.skip(i as int))[0] == (es@[i as int].0@, es@[i as int].1@));
        if crate::text::str_eq(es[i].0.as_str(), name) {
            return Some(&es[i].1);
        }
        assert(entries_view(es@.skip(i as int)).skip(1) == entries_view(es@.skip(i + 1)));
        i = i + 1;
    }
    assert(entries_view(es@.skip(i as int)).len() == 0);
    None
}

fn push_ofd_outputs(out: &mut Vec<(String, Vec<u8>)>, es: &[(String, Vec<u8>)], listed: &[(String, Vec<u8>)])
    ensures
        entries_view(final(out)@) == entries_view(old(out)@) + ofd_outputs(entries_view(es@), entries_view(listed@)),
{
    let ghost start = entries_view(out@);
    let mut i: usize = 0;
    while i < es.len()
        invariant
            i <= es@.len(),
            entries_view(out@) == start + ofd_outputs(entries_view(es@.take(i as int)), entries_view(listed@)),
        decreases es@.len() - i,
    {
        let ghost ev = (es@[i as int].0@, es@[i as int].1@);
        assert(entries_view(es@.take(i + 1)).drop_last() == entries_view(es@.take(i as int)));
        assert(entries_view(es@.take(i + 1)).last() == ev);
        if ends_with(es[i].0.as_str(), "OFD.xml") {
            match find_first_named(listed, es[i].0.as_str()) {
                Some(d) => {
                    push_entry(out, String::from_str(es[i].0.as_str()), copy_bytes(d.as_slice()));
                },
                None => {},
            }
        }
        i = i + 1;
    }
    assert(es@.take(es@.len() as int) == es@);
}

fn push_signer_seals(out: &mut Vec<(String, Vec<u8>)>, idx: usize, images: &[Vec<u8>])
    ensures
        entries_view(final(out)@) == entries_view(old(out)@) + signer_seal_entries(idx as nat, images@),
{
    let ghost start = entries_view(out@);
    let mut i: usize = 0;
    while i < images.len()
        invariant
            i <= images@.len(),
            entries_view(out@) == start + signer_seal_entries(idx as nat, images@.take(i as int)),
        decreases images@.len() - i,
    {
        assert(images@.take(i + 1).drop_last() == images@.take(i as int));
        let mut p = String::from_str("Doc_0/Res/Seal_");
        push_usize(&mut p, idx);
        push_str(&mut p, "_");
        push_usize(&mut p, i);
        push_str(&mut p, ".png");
        push_entry(out, p, copy_bytes(images[i].as_slice()));
        i = i + 1;
    }
    assert(images@.take(images@.len() as int) == images@);
}

fn key_error(m: String) -> (e: OfdError)
    ensures
        e matches OfdError::Conversion(t) && t@ == key_error_message(m@),
{
    let mut t = String::from_str("SM2 密钥派生失败: ");
    push_str(&mut t, m.as_str());
    OfdError::Conversion(t)
}

fn method_text(a: SignatureAlgorithm) -> (r: &'static str)
    ensures
        r@ == method_name(a),
{
    match a {
        SignatureAlgorithm::Sm2WithSm3 => "SM2WithSM3",
        SignatureAlgorithm::Sha256WithRsa => "SHA256WithRSA",
    }
}

fn push_one_signer(
    out: &mut Vec<(String, Vec<u8>)>,
    listed: &[(String, Vec<u8>)],
    signer: &SignerEntry,
    idx: usize,
    alg: SignatureAlgorithm,
    time: &str,
) -> (r: Result<(), OfdError>)
    ensures
        match one_signer_files(entries_view(listed@), *signer, idx as nat, alg, time@) {
            Ok(fs) => r is Ok && entries_view(final(out)@) == entries_view(old(out)@) + fs,
            Err(m) => r matches Err(OfdError::Conversion(e)) && e@ == m,
        },
        r is Ok ==> signer_verifies(entries_view(listed@), *signer, alg, time@),
{
    let si = build_signed_info(method_text(alg), time, signer.seal_images.len(), listed);
    let msg = string_bytes(si.as_str());
    let sig = match sm2_sign(signer.secret_key.as_slice(), msg.as_slice()) {
        Ok(v) => v,
        Err(m) => return Err(key_error(m)),
    };
    let pk = match sm2_public_key(signer.secret_key.as_slice()) {
        Ok(v) => v,
        Err(m) => return Err(key_error(m)),
    };
    let sig_hex = crate::internal_helpers::hex(sig.as_slice());
    let pub_hex = crate::internal_helpers::hex(pk.as_slice());
    let ghost start = entries_view(out@);
    push_signer_seals(out, idx, signer.seal_images.as_slice());
    let ghost mid = entries_view(out@);
    let mut p = String::from_str("Doc_0/Signs/SignedValue_");
    push_usize(&mut p, idx);
    push_str(&mut p, ".dat");
    let ghost sig_v = sig@;
    push_entry(out, p, sig);
    let mut q = String::from_str("Doc_0/Signs/SignedInfo_");
    push_usize(&mut q, idx);
    push_str(&mut q, ".xml");
    let ghost msg_v = msg@;
    push_entry(out, q, msg);
    let sx = build_indexed_signature_xml(si.as_str(), signer.seal_images.as_slice(), idx, pub_hex.as_str(), sig_hex.as_str());
    let mut t = String::from_str("Doc_0/Signs/Signature_");
    push_usize(&mut t, idx);
    push_str(&mut t, ".xml");
    let sxb = string_bytes(sx.as_str());
    let ghost last = (t@, sxb@);
    push_entry(out, t, sxb);
    assert(entries_view(out@) =~= mid + seq![
        ("Doc_0/Signs/SignedValue_"@ + decimal_chars(idx as nat) + ".dat"@, sig_v),
        ("Doc_0/Signs/SignedInfo_"@ + decimal_chars(idx as nat) + ".xml"@, msg_v),
        last,
    ]);
    Ok(())
}

fn collect_signer_files(
    listed: &[(String, Vec<u8>)],
    entries: &[SignerEntry],
    algorithm: SignatureAlgorithm,
    time: &str,
) -> (r: OfdResult<Vec<(String, Vec<u8>)>>)
    ensures
        match signers_files(entries_view(listed@), entries@, algorithm, time@) {
            Ok(fs) => r matches Ok(v) && entries_view(v@) == fs,
            Err(m) => r matches Err(OfdError::Conversion(e)) && e@ == m,
        },
        r is Ok ==> forall|i: int|
            0 <= i < entries@.len() ==> signer_verifies(entries_view(listed@), #[trigger] entries@[i], algorithm, time@),
{
    let ghost lv = entries_view(listed@);
    let mut files: Vec<(String, Vec<u8>)> = Vec::new();
    let mut k: usize = 0;
    assert(entries@.take(0) =~= Seq::<SignerEntry>::empty());
    assert(entries_view(files@) =~= Seq::<EntryView>::empty());
    while k < entries.len()
        invariant
            k <= entries@.len(),
            lv == entries_view(listed@),
            signers_files(lv, entries@.take(k as int), algorithm, time@) == Ok::<Seq<EntryView>, Seq<char>>(
                entries_view(files@),
            ),
            forall|i: int| 0 <= i < k ==> signer_verifies(lv, #[trigger] entries@[i], algorithm, time@),
        decreases entries@.len() - k,
    {
        assert(entries@.take(k + 1).drop_last() == entries@.take(k as int));
        assert(entries@.take(k + 1).last() == entries@[k as int]);
        match push_one_signer(&mut files, listed, &entries[k], k, algorithm, time) {
            Ok(()) => {},
            Err(e) => {
                proof {
                    lemma_signers_files_err(lv, entries@, (k + 1) as nat, algorithm, time@);
                }
                return Err(e);
            },
        }
        k = k + 1;
    }
    assert(entries@.take(entries@.len() as int) == entries@);
    Ok(files)
}

fn assemble_package(
    entry_data: &[(String, Vec<u8>)],
    files: &[(String, Vec<u8>)],
    listed: &[(String, Vec<u8>)],
) -> (r: Vec<(String, Vec<u8>)>)
    ensures
        entries_view(r@) == non_ofd_entries(entries_view(entry_data@)) + entries_view(files@) + ofd_outputs(
            entries_view(entry_data@),
            entries_view(listed@),
        ),
{
    let mut out: Vec<(String, Vec<u8>)> = Vec::new();
    assert(entries_view(out@) =~= Seq::<EntryView>::empty());
    push_non_ofd(&mut out, entry_data);
    let ghost a = entries_view(out@);
    let ghost fv = entries_view(files@);
    let mut j: usize = 0;
    while j < files.len()
        invariant
            j <= files@.len(),
            fv == entries_view(files@),
            entries_view(out@) == a + fv.take(j as int),
        decreases files@.len() - j,
    {
        push_entry(&mut out, String::from_str(files[j].0.as_str()), copy_bytes(files[j].1.as_slice()));
        assert(fv.take(j + 1) == fv.take(j as int).push(fv[j as int]));
        j = j + 1;
    }
    assert(fv.take(fv.len() as int) == fv);
    push_ofd_outputs(&mut out, entry_data, listed);
    out
}

/// Signs a package's entries for each signer at the time text `time`: returns the package
/// bytes and the paths of the signature descriptions.
pub fn sign_multiple_impl(
    entry_data: &[(String, Vec<u8>)],
    entries: &[SignerEntry],
    algorithm: SignatureAlgorithm,
    time: &str,
) -> (r: OfdResult<(Vec<u8>, Vec<String>)>)
    ensures
        match multi_outcome(entries_view(entry_data@), entries@, algorithm, time@) {
            Ok((d, refs)) => r matches Ok((v, rs)) && v@ == d && rs@.map_values(|s: String| s@) == refs,
            Err(Some(m)) => r matches Err(OfdError::Conversion(e)) && e@ == m,
            Err(None) => r is Err,
        },
        r matches Ok((v, _)) ==> multi_package_verifies(v@, entries_view(entry_data@), entries@, algorithm, time@),
{
    let refs = signature_refs(entries.len());
    let listed = list_signatures(entry_data, refs.as_slice());
    let files = match collect_signer_files(listed.as_slice(), entries, algorithm, time) {
        Ok(f) => f,
        Err(e) => return Err(e),
    };
    let out = assemble_package(entry_data, files.as_slice(), listed.as_slice());
    match write_zip_entries(out.as_slice()) {
        Ok(d) => Ok((d, refs)),
        Err(e) => Err(e),
    }
}

/// Once a signer's files fail, every longer prefix of signers fails with the same message.
proof fn lemma_signers_files_err(
    listed: Seq<EntryView>,
    signers: Seq<SignerEntry>,
    k: nat,
    alg: SignatureAlgorithm,
    time: Seq<char>,
)
    requires
        1 <= k <= signers.len(),
        signers_files(listed, signers.take(k as int), alg, time) is Err,
    ensures
        signers_files(listed, signers, alg, time) == signers_files(listed, signers.take(k as int), alg, time),
    decreases signers.len() - k,
{
    if k < signers.len() {
        assert(signers.take((k + 1) as int).drop_last() == signers.take(k as int));
        lemma_signers_files_err(listed, signers, k + 1, alg, time);
    } else {
        assert(signers.take(k as int) == signers);
    }
}

} // verus!
