//! Signing documents: the signing mode, the signature container, and the builder that
//! assembles the signature files.
use vstd::prelude::*;
use crate::algorithm::SignatureAlgorithm;
use crate::archive::{entries_view, entry_lookup, read_zip_entries, write_zip_entries, zip_archive, zip_entries, EntryView};
use crate::archive::{lemma_lookup_append, lemma_lookup_distinct, lemma_lookup_present};
use crate::internal_helpers::lemma_hex_round_trip;
use crate::verify_signature::verify_outcome;
use crate::xml::signed_info_entries;
use crate::internal_helpers::{base64_encode, base64_text, compute_sm3, hex, hex_text, sm3_digest, xml_escape, xml_escaped};
use crate::multi::{multi_outcome, multi_package_verifies, sign_multiple_impl, SignerEntry};
use crate::numtext::{decimal_chars, push_usize};
use crate::ofd_error::{OfdError, OfdResult};
use crate::paths::{extension_of, path_extension};
use crate::seal::{encode_seal_esl, seal_esl_bytes, SealInfo};
use crate::signed_ofd::SignedOfd;
use crate::sm2_sig::{
    generate_secret_key, sm2_check_public_key, sm2_check_signature, sm2_key_error, sm2_public_key,
    sm2_public_key_of, sm2_sign, sm2_signature_error, sm2_signature_of, sm2_verifies, sm2_verify,
};
use crate::text::{contains_str, ends_with, ends_with_spec, find_in, push_str, string_bytes};
use crate::timestamp::{encode_der, oid_encode_overflows, signature_time_text, timestamp_der_bytes, TimeStamp};
use crate::utc_time::UtcDateTime;
use crate::xml::{parse_signature_top, signature_top_fields, document_events, xml_error_message, xml_tokens, SignatureTopView};

verus! {

/// How a new signature treats the signatures already present.
#[derive(Debug, Clone, Copy, PartialEq, Eq, Structural)]
pub enum SignMode {
    /// The existing signature list is digested too; nothing may be added afterwards.
    WholeProtected,
    /// The existing signature list is left out of the digest, so signing may continue.
    ContinueSign,
}

impl Default for SignMode {
    fn default() -> (r: Self)
        ensures
            r == SignMode::WholeProtected,
    {
        SignMode::WholeProtected
    }
}

/// The signature method of a container: the signature algorithm.
pub type SignatureMethod = SignatureAlgorithm;

/// Object identifier of an algorithm.
pub open spec fn algorithm_oid_text(a: SignatureAlgorithm) -> Seq<char> {
    match a {
        SignatureAlgorithm::Sm2WithSm3 => "1.2.156.10197.1.501"@,
        SignatureAlgorithm::Sha256WithRsa => "1.2.840.113549.1.1.11"@,
    }
}

/// A container writing the raw signature value as `SignedValue.dat`.
#[derive(Debug)]
pub struct DigitalSignContainer {
    algorithm: SignatureAlgorithm,
}

impl View for DigitalSignContainer {
    type V = SignatureAlgorithm;

    closed spec fn view(&self) -> SignatureAlgorithm {
        self.algorithm
    }
}

/// The signature value parses, the public key parses, and the value verifies the message
/// under the key.
pub open spec fn verifies_spec(msg: Seq<u8>, signed_value: Seq<u8>, public_key: Seq<u8>) -> bool {
    &&& sm2_signature_error(signed_value) is None
    &&& sm2_key_error(public_key) is None
    &&& sm2_verifies(public_key, msg, signed_value)
}

impl DigitalSignContainer {
    /// A container for `algorithm`.
    pub fn new(algorithm: SignatureAlgorithm) -> (r: Self)
        ensures
            r@ == algorithm,
    {
        DigitalSignContainer { algorithm }
    }

    /// Object identifier of the container's algorithm.
    pub fn algorithm_oid(&self) -> (r: &'static str)
        ensures
            r@ == algorithm_oid_text(self@),
    {
        match self.algorithm {
            SignatureAlgorithm::Sm2WithSm3 => "1.2.156.10197.1.501",
            SignatureAlgorithm::Sha256WithRsa => "1.2.840.113549.1.1.11",
        }
    }

    /// The container's algorithm.
    pub fn signature_method(&self) -> (r: SignatureMethod)
        ensures
            r == self@,
    {
        self.algorithm
    }

    /// The signature value of the signed description under an SM2 secret key (32 bytes).
    pub fn build_signed_value(&self, signed_info_bytes: &[u8], secret_key: &[u8]) -> (r: OfdResult<Vec<u8>>)
        ensures
            match sm2_signature_of(secret_key@, signed_info_bytes@) {
                Ok(sig) => r matches Ok(v) && v@ == sig,
                Err(m) => r matches Err(OfdError::Conversion(e)) && e@ == key_error_message(m),
            },
            r matches Ok(v) ==> sm2_public_key_of(secret_key@) matches Ok(pk) && verifies_spec(
                signed_info_bytes@,
                v@,
                pk,
            ),
    {
        match sm2_sign(secret_key, signed_info_bytes) {
            Ok(v) => Ok(v),
            Err(m) => Err(key_error(m)),
        }
    }

    /// Whether the signature value verifies the signed description under an SEC1 public key
    /// (false when either does not parse).
    pub fn verify(&self, signed_info_bytes: &[u8], signed_value: &[u8], public_key: &[u8]) -> (b: bool)
        ensures
            b == verifies_spec(signed_info_bytes@, signed_value@, public_key@),
    {
        if sm2_check_signature(signed_value).is_some() {
            return false;
        }
        if sm2_check_public_key(public_key).is_some() {
            return false;
        }
        sm2_verify(public_key, signed_info_bytes, signed_value)
    }
}

impl Default for DigitalSignContainer {
    fn default() -> (r: Self)
        ensures
            r@ == SignatureAlgorithm::Sm2WithSm3,
    {
        DigitalSignContainer { algorithm: SignatureAlgorithm::Sm2WithSm3 }
    }
}

/// `c` equals `l` ignoring ASCII case, for a lower-case letter `l`.
pub open spec fn ascii_ci_eq(c: char, l: char) -> bool {
    c == l || c as int == l as int - 32
}

/// The extension is `xml` in any ASCII case.
pub open spec fn is_xml_extension(e: Seq<char>) -> bool {
    e.len() == 3 && ascii_ci_eq(e[0], 'x') && ascii_ci_eq(e[1], 'm') && ascii_ci_eq(e[2], 'l')
}

/// A signature description file: named `Signature.xml`, or a path holding `/Signature_` with
/// an `xml` extension (any case).
pub open spec fn signature_file_name(name: Seq<char>) -> bool {
    ||| ends_with_spec(name, "/Signature.xml"@)
    ||| (find_in(name, "/Signature_"@) is Some && match path_extension(name) {
        Some(e) => is_xml_extension(e),
        None => false,
    })
}

fn is_xml_ext(e: &str) -> (b: bool)
    ensures
        b == is_xml_extension(e@),
{
    let cs = crate::text::chars_of(e);
    cs.len() == 3 && (cs[0] == 'x' || cs[0] == 'X') && (cs[1] == 'm' || cs[1] == 'M') && (cs[2]
        == 'l' || cs[2] == 'L')
}

/// Whether a package path names a signature description file.
pub fn is_signature_file(name: &str) -> (b: bool)
    ensures
        b == signature_file_name(name@),
{
    if ends_with(name, "/Signature.xml") {
        return true;
    }
    if !contains_str(name, "/Signature_") {
        return false;
    }
    match extension_of(name) {
        Some(e) => is_xml_ext(e.as_str()),
        None => false,
    }
}


// ---- the signed description ----

/// Name of an algorithm as written in `SignatureMethod`.
pub open spec fn method_name(a: SignatureAlgorithm) -> Seq<char> {
    match a {
        SignatureAlgorithm::Sm2WithSm3 => "SM2WithSM3"@,
        SignatureAlgorithm::Sha256WithRsa => "SHA256WithRSA"@,
    }
}

fn method_name_exec(a: SignatureAlgorithm) -> (r: &'static str)
    ensures
        r@ == method_name(a),
{
    match a {
        SignatureAlgorithm::Sm2WithSm3 => "SM2WithSM3",
        SignatureAlgorithm::Sha256WithRsa => "SHA256WithRSA",
    }
}

/// The entries other than signature descriptions, in order.
pub open spec fn unsigned_entries(es: Seq<EntryView>) -> Seq<EntryView>
    decreases es.len(),
{
    if es.len() == 0 {
        Seq::empty()
    } else if signature_file_name(es.last().0) {
        unsigned_entries(es.drop_last())
    } else {
        unsigned_entries(es.drop_last()).push(es.last())
    }
}

/// The entries a signature protects: all of them, or in `ContinueSign` mode all but the
/// signature descriptions.
pub open spec fn protected_entries(es: Seq<EntryView>, mode: SignMode) -> Seq<EntryView> {
    match mode {
        SignMode::WholeProtected => es,
        SignMode::ContinueSign => unsigned_entries(es),
    }
}

/// The `FileRef` element for an entry: its SM3 digest and its escaped path.
pub open spec fn file_ref_text(e: EntryView) -> Seq<char> {
    "<ofd:FileRef CheckMethod=\"SM3\" CheckValue=\""@ + hex_text(sm3_digest(e.1)) + "\">"@
        + xml_escaped(e.0) + "</ofd:FileRef>"@
}

/// The `FileRef` elements for entries, in order.
pub open spec fn file_refs_text(es: Seq<EntryView>) -> Seq<char>
    decreases es.len(),
{
    if es.len() == 0 {
        Seq::empty()
    } else {
        file_refs_text(es.drop_last()) + file_ref_text(es.last())
    }
}

/// The signed description (`SignedInfo.xml`): provider, method, time, seal count and the
/// references.
pub open spec fn signed_info_text(method: Seq<char>, time: Seq<char>, seal_count: nat, refs: Seq<char>) -> Seq<char> {
    "<?xml version=\"1.0\" encoding=\"UTF-8\"?>\n<ofd:SignedInfo xmlns:ofd=\"http://www.ofdspec.org/2016\">\n  <ofd:Provider Version=\"1.0\">easyofd-rust</ofd:Provider>\n  <ofd:SignatureMethod>"@
        + method + "</ofd:SignatureMethod>\n  <ofd:SignatureDateTime>"@ + time
        + "</ofd:SignatureDateTime>\n  <ofd:SealCount>"@ + decimal_chars(seal_count)
        + "</ofd:SealCount>\n  <ofd:References>\n    "@ + refs
        + "\n  </ofd:References>\n</ofd:SignedInfo>"@
}

/// Appends the `FileRef` elements for `entries`.
pub fn push_file_refs(out: &mut String, entries: &[(String, Vec<u8>)])
    ensures
        final(out)@ == old(out)@ + file_refs_text(entries_view(entries@)),
{
    let ghost start = out@;
    let mut i: usize = 0;
    while i < entries.len()
        invariant
            i <= entries@.len(),
            out@ == start + file_refs_text(entries_view(entries@.take(i as int))),
        decreases entries@.len() - i,
    {
        let ghost before = out@;
        assert(entries_view(entries@.take(i + 1)).drop_last() == entries_view(entries@.take(i as int)));
        push_str(out, "<ofd:FileRef CheckMethod=\"SM3\" CheckValue=\"");
        let digest = compute_sm3(entries[i].1.as_slice());
        let dh = hex(&digest);
        push_str(out, dh.as_str());
        push_str(out, "\">");
        let esc = xml_escape(entries[i].0.as_str());
        push_str(out, esc.as_str());
        push_str(out, "</ofd:FileRef>");
        assert(out@ == before + file_ref_text(entries_view(entries@.take(i + 1)).last()));
        i = i + 1;
    }
    assert(entries@.take(entries@.len() as int) == entries@);
}

/// The signed description for a method, a time text, a seal count and the protected
/// entries.
pub fn build_signed_info(method: &str, time: &str, seal_count: usize, protected: &[(String, Vec<u8>)]) -> (r: String)
    ensures
        r@ == signed_info_text(method@, time@, seal_count as nat, file_refs_text(entries_view(protected@))),
{
    let mut s = String::new();
    push_str(&mut s, "<?xml version=\"1.0\" encoding=\"UTF-8\"?>\n<ofd:SignedInfo xmlns:ofd=\"http://www.ofdspec.org/2016\">\n  <ofd:Provider Version=\"1.0\">easyofd-rust</ofd:Provider>\n  <ofd:SignatureMethod>");
    push_str(&mut s, method);
    push_str(&mut s, "</ofd:SignatureMethod>\n  <ofd:SignatureDateTime>");
    push_str(&mut s, time);
    push_str(&mut s, "</ofd:SignatureDateTime>\n  <ofd:SealCount>");
    push_usize(&mut s, seal_count);
    push_str(&mut s, "</ofd:SealCount>\n  <ofd:References>\n    ");
    push_file_refs(&mut s, protected);
    push_str(&mut s, "\n  </ofd:References>\n</ofd:SignedInfo>");
    s
}

fn copy_bytes(b: &[u8]) -> (r: Vec<u8>)
    ensures
        r@ == b@,
{
    let mut v: Vec<u8> = Vec::new();
    crate::der_tlv::extend_bytes(&mut v, b);
    v
}

fn copy_entry(e: &(String, Vec<u8>)) -> (r: (String, Vec<u8>))
    ensures
        r.0@ == e.0@,
        r.1@ == e.1@,
{
    (String::from_str(e.0.as_str()), copy_bytes(e.1.as_slice()))
}

/// The entries protected in `mode`.
pub fn select_protected(entries: &[(String, Vec<u8>)], mode: SignMode) -> (r: Vec<(String, Vec<u8>)>)
    ensures
        entries_view(r@) == protected_entries(entries_view(entries@), mode),
{
    let mut out: Vec<(String, Vec<u8>)> = Vec::new();
    let mut i: usize = 0;
    while i < entries.len()
        invariant
            i <= entries@.len(),
            entries_view(out@) == match mode {
                SignMode::WholeProtected => entries_view(entries@.take(i as int)),
                SignMode::ContinueSign => unsigned_entries(entries_view(entries@.take(i as int))),
            },
        decreases entries@.len() - i,
    {
        let ghost ev = entries_view(entries@.take(i + 1));
        let ghost prev = entries_view(out@);
        assert(ev.drop_last() == entries_view(entries@.take(i as int)));
        assert(ev.last() == (entries@[i as int].0@, entries@[i as int].1@));
        let keep = match mode {
            SignMode::WholeProtected => true,
            SignMode::ContinueSign => !is_signature_file(entries[i].0.as_str()),
        };
        if keep {
            let e = copy_entry(&entries[i]);
            out.push(e);
            assert(entries_view(out@) == prev.push(ev.last()));
        }
        i = i + 1;
    }
    assert(entries@.take(entries@.len() as int) == entries@);
    out
}

// ---- the signature description ----

/// The `Seal` element of seal `i`.
pub open spec fn seal_ref_text(i: nat) -> Seq<char> {
    "<ofd:Seal ID=\"Seal_"@ + decimal_chars(i) + "\" Type=\"Seal\" Ref=\"Doc_0/Seal_"@
        + decimal_chars(i) + ".esl\">Doc_0/Res/Seal_"@ + decimal_chars(i) + ".png</ofd:Seal>"@
}

/// The `Seal` elements of the first `n` seals.
pub open spec fn seal_refs_text(n: nat) -> Seq<char>
    decreases n,
{
    if n == 0 {
        Seq::empty()
    } else {
        seal_refs_text((n - 1) as nat) + seal_ref_text((n - 1) as nat)
    }
}

/// The certificate of the first seal that carries one.
pub open spec fn first_cert(seals: Seq<SealInfo>) -> Option<Seq<u8>>
    decreases seals.len(),
{
    if seals.len() == 0 {
        None
    } else if seals[0].cert_der@.len() > 0 {
        Some(seals[0].cert_der@)
    } else {
        first_cert(seals.skip(1))
    }
}

/// The `KeyInfo` element: the first seal certificate in base64, or nothing.
pub open spec fn key_info_text(seals: Seq<SealInfo>) -> Seq<char> {
    match first_cert(seals) {
        Some(c) => "  <ofd:KeyInfo>\n    <ofd:Certificate>"@ + base64_text(c)
            + "</ofd:Certificate>\n  </ofd:KeyInfo>\n"@,
        None => Seq::empty(),
    }
}

/// The `TimeStamp` element: the token's DER in base64, or nothing.
pub open spec fn timestamp_text(ts: Option<TimeStamp>) -> Seq<char> {
    match ts {
        Some(t) => "  <ofd:TimeStamp>"@ + base64_text(
            timestamp_der_bytes(t.gen_time@, t.tsa_name@, t.signature_oid@),
        ) + "</ofd:TimeStamp>\n"@,
        None => Seq::empty(),
    }
}

/// The text, or `d` when there is none.
pub open spec fn text_or(o: Option<Seq<char>>, d: Seq<char>) -> Seq<char> {
    match o {
        Some(t) => t,
        None => d,
    }
}

/// The token's identifier can be encoded (see `oid_fits`), or there is no token.
pub open spec fn timestamp_encodable(ts: Option<TimeStamp>) -> bool {
    ts matches Some(t) ==> !oid_encode_overflows(t.signature_oid@)
}

/// The signature description (`Signature.xml`): references to the signed description and
/// the signature value, the time stamp, the seal certificate, provider, method and time as
/// read from the signed description, the seals, the public key and the signature value.
pub open spec fn signature_xml_text(
    top: SignatureTopView,
    seals: Seq<SealInfo>,
    pub_hex: Seq<char>,
    sig_hex: Seq<char>,
    ts: Option<TimeStamp>,
) -> Seq<char> {
    "<?xml version=\"1.0\" encoding=\"UTF-8\"?>\n<ofd:Signature xmlns:ofd=\"http://www.ofdspec.org/2016\" ID=\"Signature_0\">\n  <ofd:SignedInfoRef>Doc_0/Signs/SignedInfo.xml</ofd:SignedInfoRef>\n"@
        + timestamp_text(ts) + "  <ofd:SignedValue>Doc_0/Signs/SignedValue.dat</ofd:SignedValue>\n"@
        + key_info_text(seals) + "  <ofd:Provider "@ + text_or(
        top.provider,
        "Version=\"1.0\">easyofd-rust"@,
    ) + "</ofd:Provider>\n  <ofd:SignatureMethod>"@ + text_or(top.method, "SM2WithSM3"@)
        + "</ofd:SignatureMethod>\n  <ofd:SignatureDateTime>"@ + text_or(top.datetime, Seq::empty())
        + "</ofd:SignatureDateTime>\n  "@ + seal_refs_text(seals.len()) + "\n  <ofd:PublicKey>"@
        + pub_hex + "</ofd:PublicKey>\n  <ofd:SignatureValue>"@ + sig_hex
        + "</ofd:SignatureValue>\n</ofd:Signature>"@
}

fn push_seal_refs(out: &mut String, n: usize)
    ensures
        final(out)@ == old(out)@ + seal_refs_text(n as nat),
{
    let ghost start = out@;
    let mut i: usize = 0;
    while i < n
        invariant
            i <= n,
            out@ == start + seal_refs_text(i as nat),
        decreases n - i,
    {
        push_str(out, "<ofd:Seal ID=\"Seal_");
        push_usize(out, i);
        push_str(out, "\" Type=\"Seal\" Ref=\"Doc_0/Seal_");
        push_usize(out, i);
        push_str(out, ".esl\">Doc_0/Res/Seal_");
        push_usize(out, i);
        push_str(out, ".png</ofd:Seal>");
        i = i + 1;
    }
}

fn push_key_info(out: &mut String, seals: &[SealInfo])
    ensures
        final(out)@ == old(out)@ + key_info_text(seals@),
{
    let mut i: usize = 0;
    assert(seals@.skip(0) == seals@);
    while i < seals.len()
        invariant
            i <= seals@.len(),
            first_cert(seals@.skip(i as int)) == first_cert(seals@),
            out@ == old(out)@,
        decreases seals@.len() - i,
    {
        assert(seals@.skip(i as int)[0] == seals@[i as int]);
        if seals[i].cert_der.len() > 0 {
            push_str(out, "  <ofd:KeyInfo>\n    <ofd:Certificate>");
            let b = base64_encode(seals[i].cert_der.as_slice());
            push_str(out, b.as_str());
            push_str(out, "</ofd:Certificate>\n  </ofd:KeyInfo>\n");
            return;
        }
        assert(seals@.skip(i as int).skip(1) == seals@.skip(i + 1));
        i = i + 1;
    }
    assert(seals@.skip(i as int).len() == 0);
}

fn push_text_or(out: &mut String, o: &Option<String>, d: &str)
    ensures
        final(out)@ == old(out)@ + text_or(crate::xml::opt_text(*o), d@),
{
    match o {
        Some(t) => push_str(out, t.as_str()),
        None => push_str(out, d),
    }
}

/// Builds the signature description for a signed description: provider, method and time
/// are read back from it.
pub fn build_signature_xml(
    signed_info_xml: &str,
    seals: &[SealInfo],
    algorithm: SignatureAlgorithm,
    pub_hex: &str,
    sig_hex: &str,
    timestamp: Option<&TimeStamp>,
) -> (r: OfdResult<String>)
    requires
        timestamp_encodable(match timestamp { Some(t) => Some(*t), None => None }),
    ensures
        match xml_tokens(signed_info_xml@) {
            Ok(evs) => r matches Ok(x) && x@ == signature_xml_text(
                signature_top_fields(document_events(evs)),
                seals@,
                pub_hex@,
                sig_hex@,
                match timestamp { Some(t) => Some(*t), None => None },
            ),
            Err(m) => r matches Err(OfdError::Conversion(e)) && e@ == xml_error_message(
                "Signature XML 解析失败: "@,
                m,
            ),
        },
{
    let top = match parse_signature_top(signed_info_xml) {
        Ok(t) => t,
        Err(e) => return Err(e),
    };
    let mut s = String::new();
    push_str(&mut s, "<?xml version=\"1.0\" encoding=\"UTF-8\"?>\n<ofd:Signature xmlns:ofd=\"http://www.ofdspec.org/2016\" ID=\"Signature_0\">\n  <ofd:SignedInfoRef>Doc_0/Signs/SignedInfo.xml</ofd:SignedInfoRef>\n");
    match timestamp {
        Some(ts) => {
            let der = match encode_der(ts) {
                Ok(d) => d,
                Err(_) => Vec::new(),
            };
            push_str(&mut s, "  <ofd:TimeStamp>");
            let b = base64_encode(der.as_slice());
            push_str(&mut s, b.as_str());
            push_str(&mut s, "</ofd:TimeStamp>\n");
        },
        None => {},
    }
    push_str(&mut s, "  <ofd:SignedValue>Doc_0/Signs/SignedValue.dat</ofd:SignedValue>\n");
    push_key_info(&mut s, seals);
    push_str(&mut s, "  <ofd:Provider ");
    push_text_or(&mut s, &top.provider, "Version=\"1.0\">easyofd-rust");
    push_str(&mut s, "</ofd:Provider>\n  <ofd:SignatureMethod>");
    push_text_or(&mut s, &top.method, "SM2WithSM3");
    push_str(&mut s, "</ofd:SignatureMethod>\n  <ofd:SignatureDateTime>");
    proof {
        reveal_strlit("");
    }
    push_text_or(&mut s, &top.datetime, "");
    push_str(&mut s, "</ofd:SignatureDateTime>\n  ");
    push_seal_refs(&mut s, seals.len());
    push_str(&mut s, "\n  <ofd:PublicKey>");
    push_str(&mut s, pub_hex);
    push_str(&mut s, "</ofd:PublicKey>\n  <ofd:SignatureValue>");
    push_str(&mut s, sig_hex);
    push_str(&mut s, "</ofd:SignatureValue>\n</ofd:Signature>");
    Ok(s)
}

// ---- the signed package ----

/// The seal files of a package: for seal `i`, its image at `Doc_0/Res/Seal_i.png` and its
/// seal file at `Doc_0/Seal_i.esl`.
pub open spec fn seal_entries(seals: Seq<SealInfo>) -> Seq<EntryView>
    decreases seals.len(),
{
    if seals.len() == 0 {
        Seq::empty()
    } else {
        let i = (seals.len() - 1) as nat;
        let s = seals.last();
        seal_entries(seals.drop_last()) + seq![
            ("Doc_0/Res/Seal_"@ + decimal_chars(i) + ".png"@, s.image@),
            ("Doc_0/Seal_"@ + decimal_chars(i) + ".esl"@, seal_esl_bytes(s.version, s.cert_der@)),
        ]
    }
}

/// The entries of a signed package: the input entries, the seal files, then the
/// signature value, the signed description and the signature description.
pub open spec fn signed_package_entries(
    es: Seq<EntryView>,
    seals: Seq<SealInfo>,
    sig: Seq<u8>,
    signed_info: Seq<u8>,
    signature_xml: Seq<u8>,
) -> Seq<EntryView> {
    es + seal_entries(seals) + seq![
        ("Doc_0/Signs/SignedValue.dat"@, sig),
        ("Doc_0/Signs/SignedInfo.xml"@, signed_info),
        ("Doc_0/Signs/Signature.xml"@, signature_xml),
    ]
}

/// A signed package checks out: read back, its `SignedValue.dat` is a signature of its
/// `SignedInfo.xml` under the public key of `secret`.
pub open spec fn signed_package_verifies(pkg: Seq<u8>, secret: Seq<u8>) -> bool {
    &&& zip_entries(pkg) matches Some(es)
    &&& entry_lookup(es, "Doc_0/Signs/SignedValue.dat"@) matches Some(sig)
    &&& entry_lookup(es, "Doc_0/Signs/SignedInfo.xml"@) matches Some(si)
    &&& sm2_public_key_of(secret) matches Ok(pk)
    &&& verifies_spec(si, sig, pk)
}

/// The message of a refused SM2 key.
pub open spec fn key_error_message(m: Seq<char>) -> Seq<char> {
    "SM2 密钥派生失败: "@ + m
}

/// The entries of the package that signing the entries `es` with a secret key at a time
/// text writes: the input entries unchanged and in order, the seal files, then the
/// signature value, the signed description and the signature description; `None` when
/// the key is refused or the signed description cannot be read back.
pub open spec fn signed_entries(b: BuilderView, es: Seq<EntryView>, secret: Seq<u8>, time: Seq<char>) -> Option<Seq<EntryView>> {
    let si = signed_info_text(
        method_name(b.algorithm),
        time,
        b.seals.len(),
        file_refs_text(protected_entries(es, b.sign_mode)),
    );
    let msg = vstd::utf8::encode_utf8(si);
    match (sm2_signature_of(secret, msg), sm2_public_key_of(secret), xml_tokens(si)) {
        (Ok(sig), Ok(pk), Ok(evs)) => Some(signed_package_entries(
            es,
            b.seals,
            sig,
            msg,
            vstd::utf8::encode_utf8(signature_xml_text(
                signature_top_fields(document_events(evs)),
                b.seals,
                hex_text(pk),
                hex_text(sig),
                b.timestamp,
            )),
        )),
        _ => None,
    }
}

/// The references written for entries: each name, `SM3` and the digest text.
pub open spec fn written_refs(es: Seq<EntryView>) -> Seq<(Seq<char>, Seq<char>, Seq<char>)> {
    es.map_values(|e: EntryView| (e.0, "SM3"@, hex_text(sm3_digest(e.1))))
}

/// The path of the seal file of seal `i`.
pub open spec fn seal_file_path(i: nat) -> Seq<char> {
    "Doc_0/Seal_"@ + decimal_chars(i) + ".esl"@
}

/// The files signing adds after the input entries.
pub open spec fn added_entries(seals: Seq<SealInfo>, sig: Seq<u8>, signed_info: Seq<u8>, signature_xml: Seq<u8>) -> Seq<EntryView> {
    seal_entries(seals) + seq![
        ("Doc_0/Signs/SignedValue.dat"@, sig),
        ("Doc_0/Signs/SignedInfo.xml"@, signed_info),
        ("Doc_0/Signs/Signature.xml"@, signature_xml),
    ]
}

/// No two input entries share a name, and none shares one with an added file.
pub open spec fn names_kept(es: Seq<EntryView>, added: Seq<EntryView>) -> bool {
    &&& forall|j: int, k: int| 0 <= j < k < es.len() ==> es[j].0 != es[k].0
    &&& forall|j: int, k: int| 0 <= j < es.len() && 0 <= k < added.len() ==> es[j].0 != added[k].0
}

/// The fields read back from the written signature description: the written signed
/// description, signature value and public key, SM2 with SM3, and a seal file of one of the
/// seals exactly when there are seals.
pub open spec fn top_read_back(top: SignatureTopView, pk: Seq<u8>, n_seals: nat) -> bool {
    &&& top.signed_info_ref == Some("Doc_0/Signs/SignedInfo.xml"@)
    &&& top.signed_value == Some("Doc_0/Signs/SignedValue.dat"@)
    &&& top.public_key == Some(hex_text(pk))
    &&& top.method == Some("SM2WithSM3"@)
    &&& match top.seal_path {
        None => n_seals == 0,
        Some(p) => exists|i: nat| i < n_seals && p == seal_file_path(i),
    }
}

/// Signing the entries `es` with a secret key at a time text succeeds, the XML reader gives
/// back what was written in both descriptions, and the input's names are kept apart from
/// each other and from the added files.
pub open spec fn sign_reads_back(b: BuilderView, es: Seq<EntryView>, secret: Seq<u8>, time: Seq<char>) -> bool {
    let si = signed_info_text(
        method_name(b.algorithm),
        time,
        b.seals.len(),
        file_refs_text(protected_entries(es, b.sign_mode)),
    );
    let msg = vstd::utf8::encode_utf8(si);
    match (sm2_signature_of(secret, msg), sm2_public_key_of(secret), xml_tokens(si)) {
        (Ok(sig), Ok(pk), Ok(evs)) => {
            let sx = signature_xml_text(
                signature_top_fields(document_events(evs)),
                b.seals,
                hex_text(pk),
                hex_text(sig),
                b.timestamp,
            );
            &&& match xml_tokens(sx) {
                Ok(evs1) => top_read_back(signature_top_fields(document_events(evs1)), pk, b.seals.len()),
                Err(_) => false,
            }
            &&& match xml_tokens(crate::text::utf8_lossy(msg)) {
                Ok(evs2) => signed_info_entries(document_events(evs2)) == written_refs(
                    protected_entries(es, b.sign_mode),
                ),
                Err(_) => false,
            }
            &&& names_kept(es, added_entries(b.seals, sig, msg, vstd::utf8::encode_utf8(sx)))
        },
        _ => false,
    }
}

/// A package verifies: read back, its signature checks out whatever the verdict on the seal
/// when it has no seal, and exactly as the seal verdict says when it has seals.
pub open spec fn package_verifies_back(pkg: Seq<u8>, n_seals: nat) -> bool {
    &&& zip_entries(pkg) is Some
    &&& forall|seal_ok: bool| #[trigger] verify_outcome(zip_entries(pkg)->Some_0, seal_ok) == Some(
        Ok::<bool, Option<Seq<char>>>(n_seals == 0 || seal_ok),
    )
}

proof fn lemma_protected_from_input(es: Seq<EntryView>, mode: SignMode, i: int)
    requires
        0 <= i < protected_entries(es, mode).len(),
    ensures
        exists|j: int| 0 <= j < es.len() && es[j] == #[trigger] protected_entries(es, mode)[i],
    decreases es.len(),
{
    if mode is ContinueSign {
        let u = unsigned_entries(es);
        let h = unsigned_entries(es.drop_last());
        if i < h.len() {
            lemma_protected_from_input(es.drop_last(), mode, i);
            let j = choose|j: int| 0 <= j < es.drop_last().len() && es.drop_last()[j] == protected_entries(
                es.drop_last(),
                mode,
            )[i];
            assert(es[j] == es.drop_last()[j]);
            assert(u[i] == h[i]);
        } else {
            assert(u[i] == es[es.len() - 1]);
        }
    } else {
        assert(es[i] == protected_entries(es, mode)[i]);
    }
}

proof fn lemma_refs_intact(out: Seq<EntryView>, prot: Seq<EntryView>)
    requires
        forall|i: int| 0 <= i < prot.len() ==> entry_lookup(out, #[trigger] prot[i].0) == Some(prot[i].1),
    ensures
        crate::verify_signature::reference_failures(out, written_refs(prot)) == Seq::<Seq<char>>::empty(),
    decreases prot.len(),
{
    if prot.len() > 0 {
        let r = written_refs(prot);
        assert(r.drop_last() =~= written_refs(prot.drop_last()));
        assert forall|i: int| 0 <= i < prot.drop_last().len() implies entry_lookup(
            out,
            #[trigger] prot.drop_last()[i].0,
        ) == Some(prot.drop_last()[i].1) by {
            assert(prot.drop_last()[i] == prot[i]);
        }
        lemma_refs_intact(out, prot.drop_last());
        let last = prot[prot.len() - 1];
        assert(entry_lookup(out, last.0) == Some(last.1));
        assert(r.last() == (last.0, "SM3"@, hex_text(sm3_digest(last.1))));
        assert(crate::verify_signature::ref_intact(out, r.last()));
    }
}

proof fn lemma_seal_file_listed(seals: Seq<SealInfo>, i: nat)
    requires
        i < seals.len(),
    ensures
        exists|j: int| 0 <= j < seal_entries(seals).len() && #[trigger] seal_entries(seals)[j].0
            == seal_file_path(i),
    decreases seals.len(),
{
    let se = seal_entries(seals);
    let head = seal_entries(seals.drop_last());
    if i == seals.len() - 1 {
        assert(se[head.len() as int + 1].0 == seal_file_path(i));
    } else {
        lemma_seal_file_listed(seals.drop_last(), i);
        let j = choose|j: int| 0 <= j < head.len() && #[trigger] head[j].0 == seal_file_path(i);
        assert(se[j] == head[j]);
    }
}

proof fn lemma_seal_path_not_signs(i: nat)
    ensures
        seal_file_path(i) != "Doc_0/Signs/SignedValue.dat"@,
        seal_file_path(i) != "Doc_0/Signs/SignedInfo.xml"@,
        seal_file_path(i) != "Doc_0/Signs/Signature.xml"@,
{
    reveal_strlit("Doc_0/Seal_");
    reveal_strlit("Doc_0/Signs/SignedValue.dat");
    reveal_strlit("Doc_0/Signs/SignedInfo.xml");
    reveal_strlit("Doc_0/Signs/Signature.xml");
    assert(seal_file_path(i)[7] == 'e');
    assert("Doc_0/Signs/SignedValue.dat"@[7] == 'i');
    assert("Doc_0/Signs/SignedInfo.xml"@[7] == 'i');
    assert("Doc_0/Signs/Signature.xml"@[7] == 'i');
}

/// The signed description written for the entries `es` at a time text.
pub open spec fn signed_info_of(b: BuilderView, es: Seq<EntryView>, time: Seq<char>) -> Seq<char> {
    signed_info_text(
        method_name(b.algorithm),
        time,
        b.seals.len(),
        file_refs_text(protected_entries(es, b.sign_mode)),
    )
}

proof fn lemma_added_lookups(es: Seq<EntryView>, seals: Seq<SealInfo>, sig: Seq<u8>, msg: Seq<u8>, sxb: Seq<u8>)
    ensures
        ({
            let out = signed_package_entries(es, seals, sig, msg, sxb);
            &&& out =~= es + added_entries(seals, sig, msg, sxb)
            &&& entry_lookup(out, "Doc_0/Signs/Signature.xml"@) == Some(sxb)
            &&& entry_lookup(out, "Doc_0/Signs/SignedInfo.xml"@) == Some(msg)
            &&& entry_lookup(out, "Doc_0/Signs/SignedValue.dat"@) == Some(sig)
        }),
{
    let out = signed_package_entries(es, seals, sig, msg, sxb);
    let sv_name = "Doc_0/Signs/SignedValue.dat"@;
    let si_name = "Doc_0/Signs/SignedInfo.xml"@;
    let sx_name = "Doc_0/Signs/Signature.xml"@;
    reveal_strlit("Doc_0/Signs/SignedValue.dat");
    reveal_strlit("Doc_0/Signs/SignedInfo.xml");
    reveal_strlit("Doc_0/Signs/Signature.xml");
    assert(sx_name[16] == 'a' && si_name[16] == 'e' && sv_name[16] == 'e');
    assert(si_name[18] == 'I' && sv_name[18] == 'V');
    assert(sx_name != si_name);
    assert(sx_name != sv_name);
    assert(si_name != sv_name);
    assert(out.last() == (sx_name, sxb));
    assert(out.drop_last().last() == (si_name, msg));
    assert(out.drop_last().drop_last().last() == (sv_name, sig));
    assert(entry_lookup(out.drop_last().drop_last(), sv_name) == Some(sig));
    assert(entry_lookup(out.drop_last(), sv_name) == entry_lookup(out.drop_last().drop_last(), sv_name));
    assert(entry_lookup(out, sv_name) == entry_lookup(out.drop_last(), sv_name));
    assert(entry_lookup(out, si_name) == entry_lookup(out.drop_last(), si_name));
    assert(entry_lookup(out.drop_last(), si_name) == Some(msg));
    assert(entry_lookup(out, sx_name) == Some(sxb));
    assert(out =~= es + added_entries(seals, sig, msg, sxb));
}

proof fn lemma_input_refs_intact(es: Seq<EntryView>, mode: SignMode, added: Seq<EntryView>)
    requires
        names_kept(es, added),
    ensures
        crate::verify_signature::reference_failures(es + added, written_refs(protected_entries(es, mode)))
            == Seq::<Seq<char>>::empty(),
{
    let out = es + added;
    let prot = protected_entries(es, mode);
    assert forall|i: int| 0 <= i < prot.len() implies entry_lookup(out, #[trigger] prot[i].0) == Some(
        prot[i].1,
    ) by {
        lemma_protected_from_input(es, mode, i);
        let j = choose|j: int| 0 <= j < es.len() && es[j] == prot[i];
        lemma_lookup_append(es, added, es[j].0);
        lemma_lookup_distinct(es, j);
    }
    lemma_refs_intact(out, prot);
}

proof fn lemma_seal_file_present(es: Seq<EntryView>, seals: Seq<SealInfo>, tail: Seq<EntryView>, i: nat)
    requires
        i < seals.len(),
    ensures
        entry_lookup(es + (seal_entries(seals) + tail), seal_file_path(i)) is Some,
{
    lemma_seal_file_listed(seals, i);
    let j = choose|j: int| 0 <= j < seal_entries(seals).len() && #[trigger] seal_entries(seals)[j].0
        == seal_file_path(i);
    let out = es + (seal_entries(seals) + tail);
    assert(out[es.len() + j] == seal_entries(seals)[j]);
    lemma_lookup_present(out, es.len() + j);
}

proof fn lemma_verify_read_back(
    out: Seq<EntryView>,
    sx: Seq<char>,
    msg: Seq<u8>,
    sig: Seq<u8>,
    pk: Seq<u8>,
    n: nat,
    seal_ok: bool,
)
    requires
        entry_lookup(out, "Doc_0/Signs/Signature.xml"@) == Some(vstd::utf8::encode_utf8(sx)),
        entry_lookup(out, "Doc_0/Signs/SignedInfo.xml"@) == Some(msg),
        entry_lookup(out, "Doc_0/Signs/SignedValue.dat"@) == Some(sig),
        xml_tokens(sx) matches Ok(evs1) && top_read_back(signature_top_fields(document_events(evs1)), pk, n)
            && (signature_top_fields(document_events(evs1)).seal_path matches Some(p) ==> entry_lookup(
            out,
            p,
        ) is Some),
        xml_tokens(crate::text::utf8_lossy(msg)) matches Ok(evs2) && crate::verify_signature::reference_failures(
            out,
            signed_info_entries(document_events(evs2)),
        ) == Seq::<Seq<char>>::empty(),
        sig.len() == 64,
        pk.len() == 65,
        sm2_signature_error(sig) is None,
        sm2_key_error(pk) is None,
        sm2_verifies(pk, msg, sig),
    ensures
        verify_outcome(out, seal_ok) == Some(Ok::<bool, Option<Seq<char>>>(n == 0 || seal_ok)),
{
    vstd::utf8::encode_utf8_valid_utf8(sx);
    vstd::utf8::encode_utf8_decode_utf8(sx);
    lemma_hex_round_trip(pk);
    lemma_hex_round_trip(sig);
    let evs1 = xml_tokens(sx)->Ok_0;
    let top = signature_top_fields(document_events(evs1));
    assert(crate::verify_signature::signature_top_at(out, "Doc_0/Signs/Signature.xml"@) == Some(top));
    let v = crate::verify_signature::read_signature_outcome(out);
    assert(v is Ok);
    assert(v->Ok_0.public_key == hex_text(pk));
    assert(v->Ok_0.signature_value == hex_text(sig));
    assert(!crate::verify_signature::seal_missing(out, top));
}

proof fn lemma_signed_entries_verify(b: BuilderView, es: Seq<EntryView>, secret: Seq<u8>, time: Seq<char>, seal_ok: bool)
    requires
        sign_reads_back(b, es, secret, time),
        sm2_signature_of(secret, vstd::utf8::encode_utf8(signed_info_of(b, es, time))) matches Ok(sig) ==> {
            &&& sig.len() == 64
            &&& sm2_signature_error(sig) is None
            &&& sm2_public_key_of(secret) matches Ok(pk) && pk.len() == 65 && sm2_key_error(pk) is None
                && sm2_verifies(pk, vstd::utf8::encode_utf8(signed_info_of(b, es, time)), sig)
        },
    ensures
        signed_entries(b, es, secret, time) matches Some(out) && verify_outcome(out, seal_ok) == Some(
            Ok::<bool, Option<Seq<char>>>(b.seals.len() == 0 || seal_ok),
        ),
{
    let si = signed_info_of(b, es, time);
    let msg = vstd::utf8::encode_utf8(si);
    let sig = sm2_signature_of(secret, msg)->Ok_0;
    let pk = sm2_public_key_of(secret)->Ok_0;
    let evs = xml_tokens(si)->Ok_0;
    let sx = signature_xml_text(
        signature_top_fields(document_events(evs)),
        b.seals,
        hex_text(pk),
        hex_text(sig),
        b.timestamp,
    );
    let sxb = vstd::utf8::encode_utf8(sx);
    let tail = seq![
        ("Doc_0/Signs/SignedValue.dat"@, sig),
        ("Doc_0/Signs/SignedInfo.xml"@, msg),
        ("Doc_0/Signs/Signature.xml"@, sxb),
    ];
    let added = added_entries(b.seals, sig, msg, sxb);
    let out = signed_package_entries(es, b.seals, sig, msg, sxb);
    assert(signed_entries(b, es, secret, time) == Some(out));
    lemma_added_lookups(es, b.seals, sig, msg, sxb);
    lemma_input_refs_intact(es, b.sign_mode, added);
    let evs1 = xml_tokens(sx)->Ok_0;
    let top = signature_top_fields(document_events(evs1));
    match top.seal_path {
        Some(p) => {
            let i = choose|i: nat| i < b.seals.len() && p == seal_file_path(i);
            lemma_seal_file_present(es, b.seals, tail, i);
        },
        None => {},
    }
    lemma_verify_read_back(out, sx, msg, sig, pk, b.seals.len(), seal_ok);
}

proof fn lemma_signed_package_verifies_back(b: BuilderView, es: Seq<EntryView>, secret: Seq<u8>, time: Seq<char>, pkg: Seq<u8>)
    requires
        signed_entries(b, es, secret, time) matches Some(out) && zip_entries(pkg) == Some(out),
        sm2_signature_of(secret, vstd::utf8::encode_utf8(signed_info_of(b, es, time))) matches Ok(sig) ==> {
            &&& sig.len() == 64
            &&& sm2_signature_error(sig) is None
            &&& sm2_public_key_of(secret) matches Ok(pk) && pk.len() == 65 && sm2_key_error(pk) is None
                && sm2_verifies(pk, vstd::utf8::encode_utf8(signed_info_of(b, es, time)), sig)
        },
    ensures
        sign_reads_back(b, es, secret, time) ==> package_verifies_back(pkg, b.seals.len()),
{
    if sign_reads_back(b, es, secret, time) {
        assert forall|seal_ok: bool| #[trigger] verify_outcome(zip_entries(pkg)->Some_0, seal_ok) == Some(
            Ok::<bool, Option<Seq<char>>>(b.seals.len() == 0 || seal_ok),
        ) by {
            lemma_signed_entries_verify(b, es, secret, time, seal_ok);
        }
    }
}

/// What signing gives, as (package bytes, digest text, signature text); an error is
/// `Some(message)` for a conversion error and `None` for an archive error.
pub type SignView = Result<(Seq<u8>, Seq<char>, Seq<char>), Option<Seq<char>>>;

/// Signing the package `input` with a secret key at a time text: the protected entries are
/// digested into the signed description, which is signed; the package gets the seal files
/// and the three signature files.
pub open spec fn sign_outcome(b: BuilderView, input: Seq<u8>, secret: Seq<u8>, time: Seq<char>) -> SignView {
    match zip_entries(input) {
        None => Err(None),
        Some(es) => {
            let si = signed_info_text(
                method_name(b.algorithm),
                time,
                b.seals.len(),
                file_refs_text(protected_entries(es, b.sign_mode)),
            );
            let msg = vstd::utf8::encode_utf8(si);
            match sm2_signature_of(secret, msg) {
                Err(m) => Err(Some(key_error_message(m))),
                Ok(sig) => match sm2_public_key_of(secret) {
                    Err(m) => Err(Some(key_error_message(m))),
                    Ok(pk) => match xml_tokens(si) {
                        Err(m) => Err(Some(xml_error_message("Signature XML 解析失败: "@, m))),
                        Ok(evs) => {
                            let sx = signature_xml_text(
                                signature_top_fields(document_events(evs)),
                                b.seals,
                                hex_text(pk),
                                hex_text(sig),
                                b.timestamp,
                            );
                            match zip_archive(
                                signed_package_entries(es, b.seals, sig, msg, vstd::utf8::encode_utf8(sx)),
                            ) {
                                None => Err(None),
                                Some(data) => Ok((data, hex_text(sm3_digest(msg)), hex_text(sig))),
                            }
                        },
                    },
                },
            }
        },
    }
}

/// `r` is the outcome `o`.
pub open spec fn sign_result_matches(r: OfdResult<SignedOfd>, o: SignView) -> bool {
    match o {
        Ok(v) => r matches Ok(s) && s@ == v,
        Err(Some(m)) => r matches Err(OfdError::Conversion(e)) && e@ == m,
        Err(None) => r is Err,
    }
}

fn key_error(m: String) -> (e: OfdError)
    ensures
        e matches OfdError::Conversion(t) && t@ == key_error_message(m@),
{
    let mut t = String::from_str("SM2 密钥派生失败: ");
    push_str(&mut t, m.as_str());
    OfdError::Conversion(t)
}

fn copy_entries(entries: &[(String, Vec<u8>)]) -> (r: Vec<(String, Vec<u8>)>)
    ensures
        entries_view(r@) == entries_view(entries@),
{
    let mut out: Vec<(String, Vec<u8>)> = Vec::new();
    let mut i: usize = 0;
    while i < entries.len()
        invariant
            i <= entries@.len(),
            entries_view(out@) == entries_view(entries@.take(i as int)),
        decreases entries@.len() - i,
    {
        let e = copy_entry(&entries[i]);
        let ghost prevv = entries_view(out@);
        let ghost ev = (e.0@, e.1@);
        let ghost tv = entries_view(entries@.take(i + 1));
        assert(tv.drop_last() == entries_view(entries@.take(i as int)));
        assert(tv.last() == ev);
        out.push(e);
        assert(entries_view(out@) == prevv.push(ev));
        assert(tv == tv.drop_last().push(tv.last()));
        i = i + 1;
    }
    assert(entries@.take(entries@.len() as int) == entries@);
    out
}

fn numbered_path(prefix: &str, i: usize, suffix: &str) -> (r: String)
    ensures
        r@ == prefix@ + decimal_chars(i as nat) + suffix@,
{
    let mut s = String::from_str(prefix);
    push_usize(&mut s, i);
    push_str(&mut s, suffix);
    s
}

fn push_entry(out: &mut Vec<(String, Vec<u8>)>, name: String, data: Vec<u8>)
    ensures
        entries_view(final(out)@) == entries_view(old(out)@).push((name@, data@)),
{
    out.push((name, data));
    assert(entries_view(out@) == entries_view(old(out)@).push((name@, data@)));
}

fn push_seal_entries(out: &mut Vec<(String, Vec<u8>)>, seals: &[SealInfo])
    ensures
        entries_view(final(out)@) == entries_view(old(out)@) + seal_entries(seals@),
{
    let ghost start = entries_view(out@);
    let mut i: usize = 0;
    while i < seals.len()
        invariant
            i <= seals@.len(),
            entries_view(out@) == start + seal_entries(seals@.take(i as int)),
        decreases seals@.len() - i,
    {
        assert(seals@.take(i + 1).drop_last() == seals@.take(i as int));
        let png = numbered_path("Doc_0/Res/Seal_", i, ".png");
        push_entry(out, png, copy_bytes(seals[i].image.as_slice()));
        let esl = match encode_seal_esl(&seals[i]) {
            Ok(b) => b,
            Err(_) => Vec::new(),
        };
        let en = numbered_path("Doc_0/Seal_", i, ".esl");
        push_entry(out, en, esl);
        i = i + 1;
    }
    assert(seals@.take(seals@.len() as int) == seals@);
}

/// Signing by the builder's signers: refused without signers; otherwise the package made by
/// `multi_outcome`, with empty digest and signature texts.
pub open spec fn multi_sign_outcome(b: BuilderView, input: Seq<u8>, time: Seq<char>) -> SignView {
    if b.signers.len() == 0 {
        Err(Some("multi-signer mode requires at least one signer"@))
    } else {
        match zip_entries(input) {
            None => Err(None),
            Some(es) => match multi_outcome(es, b.signers, b.algorithm, time) {
                Ok((d, _)) => Ok((d, Seq::<char>::empty(), Seq::<char>::empty())),
                Err(e) => Err(e),
            },
        }
    }
}

// ---- the builder ----

/// What a builder holds: input path, seals, algorithm, multi-signer mode, signers, time stamp
/// and signing mode.
pub struct BuilderView {
    pub input_path: Seq<char>,
    pub seals: Seq<SealInfo>,
    pub algorithm: SignatureAlgorithm,
    pub multi_mode: bool,
    pub signers: Seq<SignerEntry>,
    pub timestamp: Option<TimeStamp>,
    pub sign_mode: SignMode,
}

/// Collects what a signature needs, then signs a document.
pub struct OfdSignatureBuilder {
    input_path: String,
    seals: Vec<SealInfo>,
    algorithm: SignatureAlgorithm,
    multi_mode: bool,
    signer_entries: Vec<SignerEntry>,
    timestamp: Option<TimeStamp>,
    sign_mode: SignMode,
}

impl View for OfdSignatureBuilder {
    type V = BuilderView;

    closed spec fn view(&self) -> BuilderView {
        BuilderView {
            input_path: self.input_path@,
            seals: self.seals@,
            algorithm: self.algorithm,
            multi_mode: self.multi_mode,
            signers: self.signer_entries@,
            timestamp: self.timestamp,
            sign_mode: self.sign_mode,
        }
    }
}

impl OfdSignatureBuilder {
    /// A builder for the document at `input`: no seals, SM2 with SM3, one signer, no time
    /// stamp, whole protection.
    pub fn new(input: &str) -> (r: Self)
        ensures
            r@ == (BuilderView {
                input_path: input@,
                seals: Seq::empty(),
                algorithm: SignatureAlgorithm::Sm2WithSm3,
                multi_mode: false,
                signers: Seq::empty(),
                timestamp: None,
                sign_mode: SignMode::WholeProtected,
            }),
    {
        OfdSignatureBuilder {
            input_path: String::from_str(input),
            seals: Vec::new(),
            algorithm: SignatureAlgorithm::Sm2WithSm3,
            multi_mode: false,
            signer_entries: Vec::new(),
            timestamp: None,
            sign_mode: SignMode::WholeProtected,
        }
    }

    /// Path of the document to sign.
    pub fn input_path(&self) -> (r: &str)
        ensures
            r@ == self@.input_path,
    {
        self.input_path.as_str()
    }

    /// Adds a seal.
    pub fn seal(self, seal: SealInfo) -> (r: Self)
        ensures
            r@ == (BuilderView { seals: self@.seals.push(seal), ..self@ }),
    {
        let mut b = self;
        b.seals.push(seal);
        b
    }

    /// Sets the signature algorithm.
    pub fn algorithm(self, alg: SignatureAlgorithm) -> (r: Self)
        ensures
            r@ == (BuilderView { algorithm: alg, ..self@ }),
    {
        let mut b = self;
        b.algorithm = alg;
        b
    }

    /// Turns multi-signer mode on or off.
    pub fn with_multiple_seals(self, enabled: bool) -> (r: Self)
        ensures
            r@ == (BuilderView { multi_mode: enabled, ..self@ }),
    {
        let mut b = self;
        b.multi_mode = enabled;
        b
    }

    /// Adds a signer with its SM2 secret key (32 bytes) and the images of its seals.
    pub fn add_signature(self, secret_key: Vec<u8>, seal_images: Vec<Vec<u8>>) -> (r: Self)
        ensures
            r@ == (BuilderView {
                signers: self@.signers.push(SignerEntry { secret_key, seal_images }),
                ..self@
            }),
    {
        let mut b = self;
        b.signer_entries.push(SignerEntry { secret_key, seal_images });
        b
    }

    /// Attaches a time-stamp token, written into the signature description.
    pub fn with_timestamp(self, ts: TimeStamp) -> (r: Self)
        ensures
            r@ == (BuilderView { timestamp: Some(ts), ..self@ }),
    {
        let mut b = self;
        b.timestamp = Some(ts);
        b
    }

    /// Sets the signing mode.
    pub fn sign_mode(self, mode: SignMode) -> (r: Self)
        ensures
            r@ == (BuilderView { sign_mode: mode, ..self@ }),
    {
        let mut b = self;
        b.sign_mode = mode;
        b
    }

    /// Whether the attached time stamp (if any) can be encoded.
    pub fn timestamp_fits(&self) -> (b: bool)
        ensures
            b == timestamp_encodable(self@.timestamp),
    {
        match &self.timestamp {
            Some(t) => crate::timestamp::oid_fits(t.signature_oid.as_str()),
            None => true,
        }
    }

    /// Signs the package `input` with `secret_key` (32 bytes) at the time text `time`. The
    /// package written holds the input entries unchanged, then the seal and signature files;
    /// where the XML reader gives back what was written, verifying it succeeds (as far as
    /// the seal verdict allows).
    pub fn sign_with(&self, input: &[u8], secret_key: &[u8], time: &str) -> (r: OfdResult<SignedOfd>)
        requires
            timestamp_encodable(self@.timestamp),
        ensures
            sign_result_matches(r, sign_outcome(self@, input@, secret_key@, time@)),
            r matches Ok(s) ==> signed_package_verifies(s@.0, secret_key@),
            r matches Ok(s) ==> zip_entries(input@) matches Some(es) && signed_entries(
                self@,
                es,
                secret_key@,
                time@,
            ) matches Some(out) && zip_entries(s@.0) == Some(out),
            r matches Ok(s) ==> zip_entries(input@) matches Some(es) && (sign_reads_back(
                self@,
                es,
                secret_key@,
                time@,
            ) ==> package_verifies_back(s@.0, self@.seals.len())),
    {
        let entries = match read_zip_entries(input) {
            Ok(e) => e,
            Err(e) => return Err(e),
        };
        let protected = select_protected(entries.as_slice(), self.sign_mode);
        let si = build_signed_info(
            method_name_exec(self.algorithm),
            time,
            self.seals.len(),
            protected.as_slice(),
        );
        let msg = string_bytes(si.as_str());
        let sig = match sm2_sign(secret_key, msg.as_slice()) {
            Ok(v) => v,
            Err(m) => return Err(key_error(m)),
        };
        let pk = match sm2_public_key(secret_key) {
            Ok(v) => v,
            Err(m) => return Err(key_error(m)),
        };
        let sig_hex = hex(sig.as_slice());
        let pub_hex = hex(pk.as_slice());
        let ts = match &self.timestamp {
            Some(t) => Some(t),
            None => None,
        };
        let sx = match build_signature_xml(
            si.as_str(),
            self.seals.as_slice(),
            self.algorithm,
            pub_hex.as_str(),
            sig_hex.as_str(),
            ts,
        ) {
            Ok(x) => x,
            Err(e) => return Err(e),
        };
        let digest = hex(&compute_sm3(msg.as_slice()));
        let ghost sig_v = sig@;
        let ghost msg_v = msg@;
        let sx_bytes = string_bytes(sx.as_str());
        let ghost sx_v = sx_bytes@;
        let mut out = copy_entries(entries.as_slice());
        push_seal_entries(&mut out, self.seals.as_slice());
        push_entry(&mut out, String::from_str("Doc_0/Signs/SignedValue.dat"), sig);
        push_entry(&mut out, String::from_str("Doc_0/Signs/SignedInfo.xml"), msg);
        push_entry(&mut out, String::from_str("Doc_0/Signs/Signature.xml"), sx_bytes);
        assert(entries_view(out@) =~= signed_package_entries(
            entries_view(entries@),
            self@.seals,
            sig_v,
            msg_v,
            sx_v,
        ));
        let data = match write_zip_entries(out.as_slice()) {
            Ok(d) => d,
            Err(e) => return Err(e),
        };
        proof {
            reveal_strlit("Doc_0/Signs/SignedValue.dat");
            reveal_strlit("Doc_0/Signs/SignedInfo.xml");
            reveal_strlit("Doc_0/Signs/Signature.xml");
            let spe = entries_view(out@);
            let n = spe.len() as int;
            assert(spe.drop_last().drop_last() == spe.subrange(0, n - 2));
            assert(spe.last().0 == "Doc_0/Signs/Signature.xml"@);
            assert(spe.drop_last().last().0 == "Doc_0/Signs/SignedInfo.xml"@);
            assert(spe.drop_last().drop_last().last() == ("Doc_0/Signs/SignedValue.dat"@, sig_v));
            assert("Doc_0/Signs/Signature.xml"@ != "Doc_0/Signs/SignedInfo.xml"@);
            assert("Doc_0/Signs/Signature.xml"@ != "Doc_0/Signs/SignedValue.dat"@);
            assert("Doc_0/Signs/SignedInfo.xml"@ != "Doc_0/Signs/SignedValue.dat"@);
            let sv_name = "Doc_0/Signs/SignedValue.dat"@;
            let si_name = "Doc_0/Signs/SignedInfo.xml"@;
            assert(spe.len() >= 3);
            assert(entry_lookup(spe.drop_last(), si_name) == Some(msg_v));
            assert(entry_lookup(spe, si_name) == entry_lookup(spe.drop_last(), si_name));
            assert(entry_lookup(spe.drop_last().drop_last(), sv_name) == Some(sig_v));
            assert(entry_lookup(spe.drop_last(), sv_name) == entry_lookup(spe.drop_last().drop_last(), sv_name));
            assert(entry_lookup(spe, sv_name) == entry_lookup(spe.drop_last(), sv_name));
            let es = entries_view(entries@);
            assert(msg_v == vstd::utf8::encode_utf8(signed_info_of(self@, es, time@)));
            lemma_signed_package_verifies_back(self@, es, secret_key@, time@, data@);
        }
        Ok(SignedOfd::from_parts(data, digest, sig_hex))
    }

    /// Signs the package `input` once per signer at the time text `time`.
    pub fn sign_multiple_with(&self, input: &[u8], time: &str) -> (r: OfdResult<SignedOfd>)
        ensures
            sign_result_matches(r, multi_sign_outcome(self@, input@, time@)),
            r matches Ok(s) ==> zip_entries(input@) matches Some(es) && multi_package_verifies(
                s@.0,
                es,
                self@.signers,
                self@.algorithm,
                time@,
            ),
    {
        if self.signer_entries.len() == 0 {
            return Err(OfdError::Conversion(String::from_str("multi-signer mode requires at least one signer")));
        }
        let entries = match read_zip_entries(input) {
            Ok(e) => e,
            Err(e) => return Err(e),
        };
        match sign_multiple_impl(entries.as_slice(), self.signer_entries.as_slice(), self.algorithm, time) {
            Ok((data, _)) => Ok(SignedOfd::from_parts(data, String::new(), String::new())),
            Err(e) => Err(e),
        }
    }

    /// Signs the package `input` once per signer at the current time: each signer gets its
    /// own signature files and `OFD.xml` lists them all.
    pub fn sign_multiple(self, input: &[u8]) -> (r: OfdResult<SignedOfd>)
        ensures
            self@.signers.len() == 0 ==> (r matches Err(OfdError::Conversion(e)) && e@
                == "multi-signer mode requires at least one signer"@),
            self@.signers.len() > 0 && zip_entries(input@) is None ==> r is Err,
            r matches Ok(s) ==> exists|t: Seq<char>| #[trigger] multi_sign_outcome(self@, input@, t) == Ok::<
                (Seq<u8>, Seq<char>, Seq<char>),
                Option<Seq<char>>,
            >(s@) && (zip_entries(input@) matches Some(es) && multi_package_verifies(
                s@.0,
                es,
                self@.signers,
                self@.algorithm,
                t,
            )),
    {
        let now = UtcDateTime::now();
        let time = signature_time_text(&now);
        let r = self.sign_multiple_with(input, time.as_str());
        proof {
            if r is Ok {
                assert(multi_sign_outcome(self@, input@, time@) == Ok::<
                    (Seq<u8>, Seq<char>, Seq<char>),
                    Option<Seq<char>>,
                >(r->Ok_0@));
            }
        }
        r
    }

    /// Signs the package `input` (the bytes of the document at the input path) with a fresh
    /// random SM2 key at the current time; what the package holds, and when it verifies, is
    /// as for `sign_with` with that key and time.
    pub fn sign(self, input: &[u8]) -> (r: OfdResult<SignedOfd>)
        requires
            timestamp_encodable(self@.timestamp),
        ensures
            zip_entries(input@) is None ==> r is Err,
            r matches Ok(s) ==> exists|k: Seq<u8>, t: Seq<char>|
                k.len() == 32 && #[trigger] sign_outcome(self@, input@, k, t) == Ok::<
                    (Seq<u8>, Seq<char>, Seq<char>),
                    Option<Seq<char>>,
                >(s@) && signed_package_verifies(s@.0, k) && (zip_entries(input@) matches Some(es)
                    && signed_entries(self@, es, k, t) matches Some(out) && zip_entries(s@.0) == Some(
                    out,
                ) && (sign_reads_back(self@, es, k, t) ==> package_verifies_back(s@.0, self@.seals.len()))),
    {
        let secret = generate_secret_key();
        let now = UtcDateTime::now();
        let time = signature_time_text(&now);
        let r = self.sign_with(input, secret.as_slice(), time.as_str());
        proof {
            if r is Ok {
                assert(sign_outcome(self@, input@, secret@, time@) == Ok::<
                    (Seq<u8>, Seq<char>, Seq<char>),
                    Option<Seq<char>>,
                >(r->Ok_0@));
                assert(signed_package_verifies(r->Ok_0@.0, secret@));
                assert(signed_entries(self@, zip_entries(input@)->Some_0, secret@, time@) is Some);
            }
        }
        r
    }
}

// ---- what a signature protects ----

/// In whole-document mode every input entry is protected, in order, and nothing else.
pub proof fn lemma_whole_protection_keeps_every_entry(es: Seq<EntryView>)
    ensures
        protected_entries(es, SignMode::WholeProtected).len() == es.len(),
        forall|i: int| 0 <= i < es.len() ==> #[trigger] protected_entries(es, SignMode::WholeProtected)[i] == es[i],
{
}

/// In continued-signing mode every input entry that is not a signature description is
/// protected, and every protected entry is such an input entry.
pub proof fn lemma_continue_protection_keeps_unsigned_entries(es: Seq<EntryView>)
    ensures
        forall|i: int| 0 <= i < es.len() && !signature_file_name(#[trigger] es[i].0) ==> exists|j: int|
            0 <= j < protected_entries(es, SignMode::ContinueSign).len() && protected_entries(
                es,
                SignMode::ContinueSign,
            )[j] == es[i],
        forall|j: int| 0 <= j < protected_entries(es, SignMode::ContinueSign).len() ==> exists|i: int|
            0 <= i < es.len() && es[i] == #[trigger] protected_entries(es, SignMode::ContinueSign)[j]
                && !signature_file_name(es[i].0),
    decreases es.len(),
{
    if es.len() > 0 {
        let init = es.drop_last();
        lemma_continue_protection_keeps_unsigned_entries(init);
        let p = protected_entries(es, SignMode::ContinueSign);
        let pi = protected_entries(init, SignMode::ContinueSign);
        assert forall|i: int| 0 <= i < es.len() && !signature_file_name(#[trigger] es[i].0) implies exists|j: int|
            0 <= j < p.len() && p[j] == es[i] by {
            if i < es.len() - 1 {
                assert(init[i] == es[i]);
                let j = choose|j: int| 0 <= j < pi.len() && pi[j] == init[i];
                assert(p[j] == pi[j]);
            } else {
                assert(p[p.len() - 1] == es[i]);
            }
        }
        assert forall|j: int| 0 <= j < p.len() implies exists|i: int|
            0 <= i < es.len() && es[i] == #[trigger] p[j] && !signature_file_name(es[i].0) by {
            if j < pi.len() {
                assert(p[j] == pi[j]);
                let i = choose|i: int| 0 <= i < init.len() && init[i] == pi[j] && !signature_file_name(init[i].0);
                assert(es[i] == init[i]);
            } else {
                assert(p[j] == es[es.len() - 1]);
            }
        }
    }
}

proof fn lemma_refs_text_has(es: Seq<EntryView>, i: int)
    requires
        0 <= i < es.len(),
    ensures
        exists|off: int| 0 <= off && off + file_ref_text(es[i]).len() <= file_refs_text(es).len() && #[trigger] file_refs_text(
            es,
        ).subrange(off, off + file_ref_text(es[i]).len()) == file_ref_text(es[i]),
    decreases es.len(),
{
    let init = es.drop_last();
    let t = file_refs_text(es);
    let f = file_ref_text(es[i]);
    if i == es.len() - 1 {
        let off = file_refs_text(init).len() as int;
        assert(t.subrange(off, off + f.len()) =~= f);
    } else {
        assert(init[i] == es[i]);
        lemma_refs_text_has(init, i);
        let off = choose|off: int| 0 <= off && off + f.len() <= file_refs_text(init).len() && #[trigger] file_refs_text(
            init,
        ).subrange(off, off + f.len()) == f;
        assert(t.subrange(off, off + f.len()) =~= file_refs_text(init).subrange(off, off + f.len()));
    }
}

/// In whole-document mode the signed description lists the `FileRef` of every input entry:
/// its escaped name with the SM3 digest of its bytes.
pub proof fn lemma_signed_info_lists_every_entry(b: BuilderView, es: Seq<EntryView>, time: Seq<char>, i: int)
    requires
        b.sign_mode == SignMode::WholeProtected,
        0 <= i < es.len(),
    ensures
        exists|off: int| 0 <= off && off + file_ref_text(es[i]).len() <= signed_info_of(b, es, time).len()
            && #[trigger] signed_info_of(b, es, time).subrange(off, off + file_ref_text(es[i]).len())
            == file_ref_text(es[i]),
{
    let refs = file_refs_text(es);
    assert(protected_entries(es, b.sign_mode) == es);
    lemma_refs_text_has(es, i);
    let f = file_ref_text(es[i]);
    let off = choose|off: int| 0 <= off && off + f.len() <= refs.len() && #[trigger] refs.subrange(off, off + f.len()) == f;
    let a = "<?xml version=\"1.0\" encoding=\"UTF-8\"?>\n<ofd:SignedInfo xmlns:ofd=\"http://www.ofdspec.org/2016\">\n  <ofd:Provider Version=\"1.0\">easyofd-rust</ofd:Provider>\n  <ofd:SignatureMethod>"@
        + method_name(b.algorithm) + "</ofd:SignatureMethod>\n  <ofd:SignatureDateTime>"@ + time
        + "</ofd:SignatureDateTime>\n  <ofd:SealCount>"@ + decimal_chars(b.seals.len())
        + "</ofd:SealCount>\n  <ofd:References>\n    "@;
    let w = "\n  </ofd:References>\n</ofd:SignedInfo>"@;
    let t = signed_info_of(b, es, time);
    assert(t == a + refs + w);
    let o = a.len() + off;
    assert(t.subrange(o, o + f.len()) =~= refs.subrange(off, off + f.len()));
}

} // verus!
