//! Reading and verifying the signatures of a package: the references must be intact, the
//! seal must match (when the signature names one) and the SM2 signature must verify the
//! signed description.
//!
//! Whether a seal file matches the seal inside a signature value is decided by the caller
//! and handed in as `seal_ok`: the library only says where that verdict is consulted.
use vstd::prelude::*;
use crate::algorithm::SignatureAlgorithm;
use crate::archive::{entries_view, entry_lookup, lookup_entry, read_zip_entries, zip_entries, EntryView};
use crate::internal_helpers::{compute_sm3, even_offsets_are_boundaries, even_offsets_exec, hex, hex_text, sm3_digest, unhex, unhex_bytes};
use crate::ofd_error::{OfdError, OfdResult};
use crate::ofd_signature_builder::text_or;
use crate::paths::{last_component, last_component_of};
use crate::sm2_sig::{sm2_check_public_key, sm2_check_signature, sm2_key_error, sm2_signature_error, sm2_verifies, sm2_verify};
use crate::text::{push_str, str_eq, string_from_utf8, string_from_utf8_lossy, utf8_decode, utf8_error_text, utf8_lossy};
use crate::verification_result::VerificationResult;
use crate::multi::is_ofd_xml_name;
use crate::xml::{
    document_events, file_ref_view, ofd_root_paths, parse_ofd_root, parse_signature_top, parse_signed_info, signature_top_fields, SignatureRef,
    signed_info_entries, top_view, xml_error_message, xml_tokens, FileRefEntry, SignatureTop,
    SignatureTopView,
};
use vstd::string::StringSliceAdditionalSpecFns;

verus! {

/// The verdict on one of several signatures.
#[derive(Debug)]
pub struct SignatureVerificationResult {
    /// Name of the signature file (its last path component).
    pub name: String,
    /// Whether the references and the SM2 signature check out.
    pub valid: bool,
    /// SM3 digest of the signature's `SignedInfo.xml`, in hexadecimal (empty when it could not
    /// be read).
    pub signed_info_digest: String,
}

/// Default path of the signed description.
pub open spec fn default_signed_info_path() -> Seq<char> {
    "Doc_0/Signs/SignedInfo.xml"@
}

/// Default path of the signature value.
pub open spec fn default_signed_value_path() -> Seq<char> {
    "Doc_0/Signs/SignedValue.dat"@
}

/// The SM3 digest of bytes, in hexadecimal.
pub open spec fn digest_hex(d: Seq<u8>) -> Seq<char> {
    hex_text(sm3_digest(d))
}

/// A reference (name, method, value) is intact: its file exists and its digest text is the
/// value.
pub open spec fn ref_intact(es: Seq<EntryView>, r: (Seq<char>, Seq<char>, Seq<char>)) -> bool {
    match entry_lookup(es, r.0) {
        Some(d) => digest_hex(d) == r.2,
        None => false,
    }
}

/// The names of the references that are not intact, in order.
pub open spec fn reference_failures(es: Seq<EntryView>, refs: Seq<(Seq<char>, Seq<char>, Seq<char>)>) -> Seq<Seq<char>>
    decreases refs.len(),
{
    if refs.len() == 0 {
        Seq::empty()
    } else if ref_intact(es, refs.last()) {
        reference_failures(es, refs.drop_last())
    } else {
        reference_failures(es, refs.drop_last()).push(refs.last().0)
    }
}

/// The fields of the signature description stored at `path`, when it exists, is UTF-8 and
/// reads as XML.
pub open spec fn signature_top_at(es: Seq<EntryView>, path: Seq<char>) -> Option<SignatureTopView> {
    match entry_lookup(es, path) {
        Some(sb) => if vstd::utf8::valid_utf8(sb) {
            match xml_tokens(vstd::utf8::decode_utf8(sb)) {
                Ok(evs) => Some(signature_top_fields(document_events(evs))),
                Err(_) => None,
            }
        } else {
            None
        },
        None => None,
    }
}

/// What the verification result holds, as plain values.
pub struct VerificationView {
    pub valid: bool,
    pub digest: Seq<char>,
    pub signature_value: Seq<char>,
    pub public_key: Seq<char>,
    pub algorithm: SignatureAlgorithm,
    pub reference_failures: Seq<Seq<char>>,
}

/// A verification result as plain values.
pub open spec fn result_view(r: VerificationResult) -> VerificationView {
    VerificationView {
        valid: r.valid,
        digest: r.digest@,
        signature_value: r.signature_value@,
        public_key: r.public_key@,
        algorithm: r.algorithm,
        reference_failures: r.reference_failures@.map_values(|s: String| s@),
    }
}

/// The algorithm named by a method text: SM2 with SM3 exactly for `SM2WithSM3`.
pub open spec fn algorithm_of_method(m: Option<Seq<char>>) -> SignatureAlgorithm {
    if m == Some("SM2WithSM3"@) {
        SignatureAlgorithm::Sm2WithSm3
    } else {
        SignatureAlgorithm::Sha256WithRsa
    }
}

/// What reading the signature of a package's entries gives (`valid` stays false), or the
/// message of the first failure.
pub open spec fn read_signature_outcome(es: Seq<EntryView>) -> Result<VerificationView, Seq<char>> {
    match entry_lookup(es, "Doc_0/Signs/Signature.xml"@) {
        None => Err("签名文件不存在"@),
        Some(sb) => if !vstd::utf8::valid_utf8(sb) {
            Err("Signature.xml 非 UTF-8: "@ + utf8_error_text(sb))
        } else {
            match xml_tokens(vstd::utf8::decode_utf8(sb)) {
                Err(m) => Err(xml_error_message("Signature XML 解析失败: "@, m)),
                Ok(evs) => {
                    let top = signature_top_fields(document_events(evs));
                    match entry_lookup(es, text_or(top.signed_info_ref, default_signed_info_path())) {
                        None => Err("SignedInfo 缺失"@),
                        Some(si) => match entry_lookup(es, text_or(top.signed_value, default_signed_value_path())) {
                            None => Err("SignedValue 缺失"@),
                            Some(sv) => match xml_tokens(utf8_lossy(si)) {
                                Err(m) => Err(xml_error_message("SignedInfo XML 解析失败: "@, m)),
                                Ok(evs2) => Ok(VerificationView {
                                    valid: false,
                                    digest: digest_hex(si),
                                    signature_value: hex_text(sv),
                                    public_key: text_or(top.public_key, Seq::empty()),
                                    algorithm: algorithm_of_method(top.method),
                                    reference_failures: reference_failures(
                                        es,
                                        signed_info_entries(document_events(evs2)),
                                    ),
                                }),
                            },
                        },
                    }
                },
            }
        },
    }
}

fn conversion(msg: &str) -> (e: OfdError)
    ensures
        e matches OfdError::Conversion(m) && m@ == msg@,
{
    OfdError::Conversion(String::from_str(msg))
}

fn conversion_with(prefix: &str, detail: &str) -> (e: OfdError)
    ensures
        e matches OfdError::Conversion(m) && m@ == prefix@ + detail@,
{
    let mut m = String::from_str(prefix);
    push_str(&mut m, detail);
    OfdError::Conversion(m)
}

fn copy_bytes(b: &[u8]) -> (r: Vec<u8>)
    ensures
        r@ == b@,
{
    let mut v: Vec<u8> = Vec::new();
    crate::der_tlv::extend_bytes(&mut v, b);
    v
}

fn text_or_exec(o: &Option<String>, d: &str) -> (r: String)
    ensures
        r@ == text_or(crate::xml::opt_text(*o), d@),
{
    match o {
        Some(t) => String::from_str(t.as_str()),
        None => String::from_str(d),
    }
}

/// Whether a reference is intact.
fn ref_intact_exec(entries: &[(String, Vec<u8>)], r: &FileRefEntry) -> (b: bool)
    ensures
        b == ref_intact(entries_view(entries@), file_ref_view(*r)),
{
    match lookup_entry(entries, r.name.as_str()) {
        Some(d) => {
            let h = hex(&compute_sm3(d.as_slice()));
            str_eq(h.as_str(), r.check_value.as_str())
        },
        None => false,
    }
}

/// The names of the references that are not intact.
pub fn check_references(entries: &[(String, Vec<u8>)], refs: &[FileRefEntry]) -> (r: Vec<String>)
    ensures
        r@.map_values(|s: String| s@) == reference_failures(
            entries_view(entries@),
            refs@.map_values(|e: FileRefEntry| file_ref_view(e)),
        ),
{
    let ghost es = entries_view(entries@);
    let ghost rv = refs@.map_values(|e: FileRefEntry| file_ref_view(e));
    let mut out: Vec<String> = Vec::new();
    let mut i: usize = 0;
    while i < refs.len()
        invariant
            i <= refs@.len(),
            es == entries_view(entries@),
            rv == refs@.map_values(|e: FileRefEntry| file_ref_view(e)),
            out@.map_values(|s: String| s@) == reference_failures(es, rv.take(i as int)),
        decreases refs@.len() - i,
    {
        assert(rv.take(i + 1).drop_last() == rv.take(i as int));
        assert(rv.take(i + 1).last() == file_ref_view(refs@[i as int]));
        if !ref_intact_exec(entries, &refs[i]) {
            let ghost prev = out@.map_values(|s: String| s@);
            let n = String::from_str(refs[i].name.as_str());
            let ghost nv = n@;
            out.push(n);
            assert(out@.map_values(|s: String| s@) =~= prev.push(nv));
        }
        i = i + 1;
    }
    assert(rv.take(rv.len() as int) == rv);
    out
}

/// Reads the signature of a package's entries: digest of the signed description, the
/// signature value and public key as stored, the algorithm, and the references that do not
/// match. `valid` is left false.
pub fn read_signature_entries(entries: &[(String, Vec<u8>)]) -> (r: OfdResult<VerificationResult>)
    ensures
        match read_signature_outcome(entries_view(entries@)) {
            Ok(v) => r matches Ok(x) && result_view(x) == v,
            Err(m) => r matches Err(OfdError::Conversion(e)) && e@ == m,
        },
{
    let sb = match lookup_entry(entries, "Doc_0/Signs/Signature.xml") {
        Some(b) => b,
        None => return Err(conversion("签名文件不存在")),
    };
    let sig_xml = match string_from_utf8(copy_bytes(sb.as_slice())) {
        Ok(s) => s,
        Err(detail) => return Err(conversion_with("Signature.xml 非 UTF-8: ", detail.as_str())),
    };
    let top = match parse_signature_top(sig_xml.as_str()) {
        Ok(t) => t,
        Err(e) => return Err(e),
    };
    let si_path = text_or_exec(&top.signed_info_ref, "Doc_0/Signs/SignedInfo.xml");
    let si = match lookup_entry(entries, si_path.as_str()) {
        Some(b) => b,
        None => return Err(conversion("SignedInfo 缺失")),
    };
    let digest = hex(&compute_sm3(si.as_slice()));
    let sv_path = text_or_exec(&top.signed_value, "Doc_0/Signs/SignedValue.dat");
    let sv = match lookup_entry(entries, sv_path.as_str()) {
        Some(b) => b,
        None => return Err(conversion("SignedValue 缺失")),
    };
    let signature_value = hex(sv.as_slice());
    proof {
        reveal_strlit("");
    }
    let public_key = text_or_exec(&top.public_key, "");
    let algorithm = match &top.method {
        Some(m) => if str_eq(m.as_str(), "SM2WithSM3") {
            SignatureAlgorithm::Sm2WithSm3
        } else {
            SignatureAlgorithm::Sha256WithRsa
        },
        None => SignatureAlgorithm::Sha256WithRsa,
    };
    let si_text = string_from_utf8_lossy(si.as_slice());
    let refs = match parse_signed_info(si_text.as_str()) {
        Ok(v) => v,
        Err(e) => return Err(e),
    };
    let reference_failures = check_references(entries, refs.as_slice());
    proof {
        let es = entries_view(entries@);
        let tv = top_view(top);
        assert(algorithm == algorithm_of_method(tv.method));
        assert(public_key@ == text_or(tv.public_key, Seq::empty()));
        assert(digest@ == digest_hex(si@));
        assert(signature_value@ == hex_text(sv@));
    }
    Ok(VerificationResult { valid: false, digest, signature_value, public_key, algorithm, reference_failures })
}

/// Reads the signature of a package (the bytes of a signed document).
pub fn read_signature(archive: &[u8]) -> (r: OfdResult<VerificationResult>)
    ensures
        match zip_entries(archive@) {
            None => r is Err,
            Some(es) => match read_signature_outcome(es) {
                Ok(v) => r matches Ok(x) && result_view(x) == v,
                Err(m) => r matches Err(OfdError::Conversion(e)) && e@ == m,
            },
        },
{
    let entries = match read_zip_entries(archive) {
        Ok(e) => e,
        Err(e) => return Err(e),
    };
    read_signature_entries(entries.as_slice())
}


// ---- verifying the signature ----

/// The verdict consulted for the seal: when the description names a seal, its file must
/// exist (else the archive lookup fails) and `seal_ok` must hold.
pub open spec fn seal_missing(es: Seq<EntryView>, top: SignatureTopView) -> bool {
    match top.seal_path {
        Some(sp) => entry_lookup(es, sp) is None,
        None => false,
    }
}

/// What verifying the signature of a package's entries gives (`Err(None)` is an archive
/// lookup failure), with `seal_ok` the verdict on the seal; `None` where reading the public
/// key text would cut it inside a character or at an odd length.
pub open spec fn verify_outcome(es: Seq<EntryView>, seal_ok: bool) -> Option<Result<bool, Option<Seq<char>>>> {
    match read_signature_outcome(es) {
        Err(m) => Some(Err(Some(m))),
        Ok(v) => if v.reference_failures.len() > 0 {
            Some(Ok(false))
        } else if v.algorithm != SignatureAlgorithm::Sm2WithSm3 {
            Some(Err(Some("仅支持 SM2WithSM3 算法验证"@)))
        } else if v.public_key.len() == 0 || v.signature_value.len() == 0 {
            Some(Ok(false))
        } else {
            match signature_top_at(es, "Doc_0/Signs/Signature.xml"@) {
                None => Some(Err(None)),
                Some(top) => match entry_lookup(es, text_or(top.signed_value, default_signed_value_path())) {
                    None => Some(Err(None)),
                    Some(sv) => if sv.len() != 64 {
                        Some(Err(Some("签名长度无效"@)))
                    } else if !even_offsets_are_boundaries(vstd::utf8::encode_utf8(v.public_key)) {
                        None
                    } else {
                        match unhex_bytes(vstd::utf8::encode_utf8(v.public_key)) {
                            None => Some(Err(Some("公钥格式无效"@))),
                            Some(pb) => if pb.len() != 33 && pb.len() != 65 {
                                Some(Err(Some("公钥长度无效"@)))
                            } else if seal_missing(es, top) {
                                Some(Err(None))
                            } else if top.seal_path is Some && !seal_ok {
                                Some(Ok(false))
                            } else {
                                match entry_lookup(es, text_or(top.signed_info_ref, default_signed_info_path())) {
                                    None => Some(Err(None)),
                                    Some(si) => match sm2_key_error(pb) {
                                        Some(e) => Some(Err(Some("公钥解析失败: "@ + e))),
                                        None => match sm2_signature_error(sv) {
                                            Some(e) => Some(Err(Some("签名解析失败: "@ + e))),
                                            None => Some(Ok(sm2_verifies(pb, si, sv))),
                                        },
                                    },
                                }
                            },
                        }
                    },
                },
            }
        },
    }
}

/// `r` is the outcome `o`.
pub open spec fn verify_result_matches(r: OfdResult<bool>, o: Result<bool, Option<Seq<char>>>) -> bool {
    match o {
        Ok(b) => r == Ok::<bool, OfdError>(b),
        Err(Some(m)) => r matches Err(OfdError::Conversion(e)) && e@ == m,
        Err(None) => r is Err,
    }
}

fn load_top(entries: &[(String, Vec<u8>)], path: &str) -> (r: Option<SignatureTop>)
    ensures
        match signature_top_at(entries_view(entries@), path@) {
            Some(t) => r matches Some(x) && top_view(x) == t,
            None => r is None,
        },
{
    let sb = match lookup_entry(entries, path) {
        Some(b) => b,
        None => return None,
    };
    let text = match utf8_decode(sb.as_slice()) {
        Some(t) => t,
        None => return None,
    };
    match parse_signature_top(text.as_str()) {
        Ok(t) => Some(t),
        Err(_) => None,
    }
}

fn not_found() -> (e: OfdError) {
    OfdError::Zip(String::from_str("specified file not found in archive"))
}

/// Verifies the signature of a package's entries; `seal_ok` is the verdict on the seal file
/// against the signature value, consulted only when the description names a seal.
pub fn verify_signature_entries(entries: &[(String, Vec<u8>)], seal_ok: bool) -> (r: OfdResult<bool>)
    requires
        verify_outcome(entries_view(entries@), seal_ok) is Some,
    ensures
        verify_result_matches(r, verify_outcome(entries_view(entries@), seal_ok).unwrap()),
{
    let result = match read_signature_entries(entries) {
        Ok(v) => v,
        Err(e) => return Err(e),
    };
    if result.reference_failures.len() > 0 {
        return Ok(false);
    }
    match result.algorithm {
        SignatureAlgorithm::Sha256WithRsa => return Err(conversion("仅支持 SM2WithSM3 算法验证")),
        SignatureAlgorithm::Sm2WithSm3 => {},
    }
    if result.public_key.as_str().is_empty() || result.signature_value.as_str().is_empty() {
        return Ok(false);
    }
    let top = match load_top(entries, "Doc_0/Signs/Signature.xml") {
        Some(t) => t,
        None => return Err(not_found()),
    };
    let sv_path = text_or_exec(&top.signed_value, "Doc_0/Signs/SignedValue.dat");
    let sv = match lookup_entry(entries, sv_path.as_str()) {
        Some(b) => b,
        None => return Err(not_found()),
    };
    if sv.len() != 64 {
        return Err(conversion("签名长度无效"));
    }
    let pb = match unhex(result.public_key.as_str()) {
        Some(b) => b,
        None => return Err(conversion("公钥格式无效")),
    };
    if pb.len() != 33 && pb.len() != 65 {
        return Err(conversion("公钥长度无效"));
    }
    match &top.seal_path {
        Some(sp) => {
            if lookup_entry(entries, sp.as_str()).is_none() {
                return Err(not_found());
            }
            if !seal_ok {
                return Ok(false);
            }
        },
        None => {},
    }
    let si_path = text_or_exec(&top.signed_info_ref, "Doc_0/Signs/SignedInfo.xml");
    let si = match lookup_entry(entries, si_path.as_str()) {
        Some(b) => b,
        None => return Err(not_found()),
    };
    match sm2_check_public_key(pb.as_slice()) {
        Some(e) => return Err(conversion_with("公钥解析失败: ", e.as_str())),
        None => {},
    }
    match sm2_check_signature(sv.as_slice()) {
        Some(e) => return Err(conversion_with("签名解析失败: ", e.as_str())),
        None => {},
    }
    Ok(sm2_verify(pb.as_slice(), si.as_slice(), sv.as_slice()))
}

/// Whether verifying the entries would read the public key text at a position inside a
/// character or past an odd length.
pub fn verify_would_panic(entries: &[(String, Vec<u8>)], seal_ok: bool) -> (b: bool)
    ensures
        b == (verify_outcome(entries_view(entries@), seal_ok) is None),
{
    let result = match read_signature_entries(entries) {
        Ok(v) => v,
        Err(_) => return false,
    };
    if result.reference_failures.len() > 0 {
        return false;
    }
    match result.algorithm {
        SignatureAlgorithm::Sha256WithRsa => return false,
        SignatureAlgorithm::Sm2WithSm3 => {},
    }
    if result.public_key.as_str().is_empty() || result.signature_value.as_str().is_empty() {
        return false;
    }
    let top = match load_top(entries, "Doc_0/Signs/Signature.xml") {
        Some(t) => t,
        None => return false,
    };
    let sv_path = text_or_exec(&top.signed_value, "Doc_0/Signs/SignedValue.dat");
    let sv = match lookup_entry(entries, sv_path.as_str()) {
        Some(b) => b,
        None => return false,
    };
    if sv.len() != 64 {
        return false;
    }
    !even_offsets_exec(result.public_key.as_str())
}

/// Verifies the signature of a package (the bytes of a signed document); `seal_ok` is the
/// verdict on the seal file, consulted only when the signature names a seal.
pub fn verify_signature(archive: &[u8], seal_ok: bool) -> (r: OfdResult<bool>)
    requires
        zip_entries(archive@) matches Some(es) ==> verify_outcome(es, seal_ok) is Some,
    ensures
        match zip_entries(archive@) {
            None => r is Err,
            Some(es) => verify_result_matches(r, verify_outcome(es, seal_ok).unwrap()),
        },
{
    let entries = match read_zip_entries(archive) {
        Ok(e) => e,
        Err(e) => return Err(e),
    };
    verify_signature_entries(entries.as_slice(), seal_ok)
}

/// Verifies the signature of a package, or `None` where reading its public key text would
/// cut it inside a character or at an odd length.
pub fn verify_signature_checked(archive: &[u8], seal_ok: bool) -> (r: Option<OfdResult<bool>>)
    ensures
        match zip_entries(archive@) {
            None => r matches Some(x) && x is Err,
            Some(es) => match verify_outcome(es, seal_ok) {
                None => r is None,
                Some(o) => r matches Some(x) && verify_result_matches(x, o),
            },
        },
{
    let entries = match read_zip_entries(archive) {
        Ok(e) => e,
        Err(e) => return Some(Err(e)),
    };
    if verify_would_panic(entries.as_slice(), seal_ok) {
        return None;
    }
    Some(verify_signature(archive, seal_ok))
}


// ---- several signatures ----

/// One signature's verdict as (name, valid, digest text).
pub type SingleView = (Seq<char>, bool, Seq<char>);

/// A verdict as plain values.
pub open spec fn single_view(r: SignatureVerificationResult) -> SingleView {
    (r.name@, r.valid, r.signed_info_digest@)
}

/// The verdict on the signature described at `path` once its references passed: the seal
/// (when named) must exist and pass `seal_ok`, the public key and the 64-byte signature
/// value must be there and the SM2 signature must verify; `None` where reading the public
/// key text would cut it inside a character or at an odd length.
pub open spec fn single_key_step(
    es: Seq<EntryView>,
    top: SignatureTopView,
    si: Seq<u8>,
    sv: Seq<u8>,
    seal_ok: bool,
) -> Option<bool> {
    let pk = text_or(top.public_key, Seq::empty());
    if seal_missing(es, top) || (top.seal_path is Some && !seal_ok) {
        Some(false)
    } else if pk.len() == 0 || sv.len() == 0 || sv.len() != 64 {
        Some(false)
    } else if !even_offsets_are_boundaries(vstd::utf8::encode_utf8(pk)) {
        None
    } else {
        match unhex_bytes(vstd::utf8::encode_utf8(pk)) {
            None => Some(false),
            Some(pb) => if pb.len() != 33 && pb.len() != 65 {
                Some(false)
            } else {
                Some(sm2_key_error(pb) is None && sm2_signature_error(sv) is None && sm2_verifies(pb, si, sv))
            },
        }
    }
}

/// The verdict on the signature described at `path` among the entries: named by the last
/// component of the path; invalid (with an empty digest until the signed description is
/// found) when a file is missing or unreadable or a reference is broken.
pub open spec fn single_outcome(es: Seq<EntryView>, path: Seq<char>, seal_ok: bool) -> Option<SingleView> {
    let name = last_component(path);
    match signature_top_at(es, path) {
        None => Some((name, false, Seq::empty())),
        Some(top) => match entry_lookup(es, text_or(top.signed_info_ref, default_signed_info_path())) {
            None => Some((name, false, Seq::empty())),
            Some(si) => {
                let d = digest_hex(si);
                match entry_lookup(es, text_or(top.signed_value, default_signed_value_path())) {
                    None => Some((name, false, d)),
                    Some(sv) => match xml_tokens(utf8_lossy(si)) {
                        Err(_) => Some((name, false, d)),
                        Ok(evs) => if reference_failures(es, signed_info_entries(document_events(evs))).len() > 0 {
                            Some((name, false, d))
                        } else {
                            match single_key_step(es, top, si, sv, seal_ok) {
                                None => None,
                                Some(v) => Some((name, v, d)),
                            }
                        },
                    },
                }
            },
        }
    }
}

fn invalid(name: String, digest: String) -> (r: SignatureVerificationResult)
    ensures
        single_view(r) == (name@, false, digest@),
{
    SignatureVerificationResult { name, valid: false, signed_info_digest: digest }
}

/// The key step, or `None` where the public key text would be cut badly.
fn single_key_step_exec(
    entries: &[(String, Vec<u8>)],
    top: &SignatureTop,
    si: &[u8],
    sv: &[u8],
    seal_ok: bool,
) -> (r: Option<bool>)
    ensures
        r == single_key_step(entries_view(entries@), top_view(*top), si@, sv@, seal_ok),
{
    match &top.seal_path {
        Some(sp) => {
            if lookup_entry(entries, sp.as_str()).is_none() || !seal_ok {
                return Some(false);
            }
        },
        None => {},
    }
    proof {
        reveal_strlit("");
    }
    let pk = text_or_exec(&top.public_key, "");
    if pk.as_str().is_empty() || sv.len() == 0 || sv.len() != 64 {
        return Some(false);
    }
    if !even_offsets_exec(pk.as_str()) {
        return None;
    }
    let pb = match unhex(pk.as_str()) {
        Some(b) => b,
        None => return Some(false),
    };
    if pb.len() != 33 && pb.len() != 65 {
        return Some(false);
    }
    if sm2_check_public_key(pb.as_slice()).is_some() {
        return Some(false);
    }
    if sm2_check_signature(sv).is_some() {
        return Some(false);
    }
    Some(sm2_verify(pb.as_slice(), si, sv))
}

/// The verdict, or `None` where reading the public key text would cut it inside a character.
fn single_checked(entries: &[(String, Vec<u8>)], sig_xml_path: &str, seal_ok: bool) -> (r: Option<SignatureVerificationResult>)
    ensures
        match single_outcome(entries_view(entries@), sig_xml_path@, seal_ok) {
            None => r is None,
            Some(v) => r matches Some(x) && single_view(x) == v,
        },
{
    let name = last_component_of(sig_xml_path);
    let top = match load_top(entries, sig_xml_path) {
        Some(t) => t,
        None => return Some(invalid(name, String::new())),
    };
    let si_path = text_or_exec(&top.signed_info_ref, "Doc_0/Signs/SignedInfo.xml");
    let si = match lookup_entry(entries, si_path.as_str()) {
        Some(b) => b,
        None => return Some(invalid(name, String::new())),
    };
    let digest = hex(&compute_sm3(si.as_slice()));
    let sv_path = text_or_exec(&top.signed_value, "Doc_0/Signs/SignedValue.dat");
    let sv = match lookup_entry(entries, sv_path.as_str()) {
        Some(b) => b,
        None => return Some(invalid(name, digest)),
    };
    let si_text = string_from_utf8_lossy(si.as_slice());
    let refs = match parse_signed_info(si_text.as_str()) {
        Ok(v) => v,
        Err(_) => return Some(invalid(name, digest)),
    };
    let failures = check_references(entries, refs.as_slice());
    if failures.len() > 0 {
        return Some(invalid(name, digest));
    }
    match single_key_step_exec(entries, &top, si.as_slice(), sv.as_slice(), seal_ok) {
        None => None,
        Some(valid) => Some(SignatureVerificationResult { name, valid, signed_info_digest: digest }),
    }
}

/// Verifies the signature described at `sig_xml_path` among a package's entries; `seal_ok`
/// is the verdict on its seal file, consulted only when it names a seal.
pub fn verify_single_from_entries(entries: &[(String, Vec<u8>)], sig_xml_path: &str, seal_ok: bool) -> (r: SignatureVerificationResult)
    requires
        single_outcome(entries_view(entries@), sig_xml_path@, seal_ok) is Some,
    ensures
        single_view(r) == single_outcome(entries_view(entries@), sig_xml_path@, seal_ok).unwrap(),
{
    match single_checked(entries, sig_xml_path, seal_ok) {
        Some(r) => r,
        None => invalid(String::new(), String::new()),
    }
}

/// The seal file and the signature value that the seal verdict for the signature at `p` is
/// about, when its description names a seal and both files exist.
pub open spec fn seal_inputs(es: Seq<EntryView>, p: Seq<char>) -> Option<(Seq<u8>, Seq<u8>)> {
    match signature_top_at(es, p) {
        Some(top) => match (top.seal_path, entry_lookup(es, text_or(top.signed_value, default_signed_value_path()))) {
            (Some(sp), Some(sv)) => match entry_lookup(es, sp) {
                Some(seal) => Some((seal, sv)),
                None => None,
            },
            _ => None,
        },
        None => None,
    }
}

/// The seal file and the signature value that the seal verdict for the signature at
/// `sig_xml_path` is about, when the description names a seal and both files exist.
pub fn seal_check_inputs(entries: &[(String, Vec<u8>)], sig_xml_path: &str) -> (r: Option<(Vec<u8>, Vec<u8>)>)
    ensures
        match signature_top_at(entries_view(entries@), sig_xml_path@) {
            Some(top) => match (top.seal_path, entry_lookup(
                entries_view(entries@),
                text_or(top.signed_value, default_signed_value_path()),
            )) {
                (Some(sp), Some(sv)) => match entry_lookup(entries_view(entries@), sp) {
                    Some(seal) => r matches Some((a, b)) && a@ == seal && b@ == sv,
                    None => r is None,
                },
                _ => r is None,
            },
            None => r is None,
        },
{
    let top = match load_top(entries, sig_xml_path) {
        Some(t) => t,
        None => return None,
    };
    let sv_path = text_or_exec(&top.signed_value, "Doc_0/Signs/SignedValue.dat");
    let sv = match lookup_entry(entries, sv_path.as_str()) {
        Some(b) => b,
        None => return None,
    };
    match &top.seal_path {
        Some(sp) => match lookup_entry(entries, sp.as_str()) {
            Some(seal) => Some((copy_bytes(seal.as_slice()), copy_bytes(sv.as_slice()))),
            None => None,
        },
        None => None,
    }
}


/// The first `OFD.xml` path in archive order.
pub open spec fn first_ofd_xml(es: Seq<EntryView>) -> Option<Seq<char>>
    decreases es.len(),
{
    if es.len() == 0 {
        None
    } else if is_ofd_xml_name(es[0].0) {
        Some(es[0].0)
    } else {
        first_ofd_xml(es.skip(1))
    }
}

/// The signature description paths listed in the first `OFD.xml` (read as lossy UTF-8);
/// none without an `OFD.xml`.
pub open spec fn signature_paths_outcome(es: Seq<EntryView>) -> Result<Seq<Seq<char>>, Seq<char>> {
    match first_ofd_xml(es) {
        None => Ok(Seq::empty()),
        Some(n) => match entry_lookup(es, n) {
            None => Ok(Seq::empty()),
            Some(x) => match xml_tokens(utf8_lossy(x)) {
                Err(m) => Err(xml_error_message("OFD.xml 解析失败: "@, m)),
                Ok(evs) => Ok(ofd_root_paths(document_events(evs))),
            },
        },
    }
}

/// The seal verdict for signature `i`: the given one, or a pass when none was given.
pub open spec fn verdict_at(verdicts: Seq<bool>, i: int) -> bool {
    if 0 <= i < verdicts.len() {
        verdicts[i]
    } else {
        true
    }
}

/// The verdicts on the signatures at `paths`, in order; `None` where one of them would cut
/// its public key text badly.
pub open spec fn singles_outcome(es: Seq<EntryView>, paths: Seq<Seq<char>>, verdicts: Seq<bool>) -> Option<Seq<SingleView>>
    decreases paths.len(),
{
    if paths.len() == 0 {
        Some(Seq::empty())
    } else {
        match singles_outcome(es, paths.drop_last(), verdicts) {
            None => None,
            Some(prev) => match single_outcome(es, paths.last(), verdict_at(verdicts, paths.len() - 1)) {
                None => None,
                Some(v) => Some(prev.push(v)),
            },
        }
    }
}

/// What verifying every listed signature gives.
pub open spec fn multi_verify_outcome(es: Seq<EntryView>, verdicts: Seq<bool>) -> Option<Result<Seq<SingleView>, Seq<char>>> {
    match signature_paths_outcome(es) {
        Err(m) => Some(Err(m)),
        Ok(paths) => match singles_outcome(es, paths, verdicts) {
            None => None,
            Some(vs) => Some(Ok(vs)),
        },
    }
}

fn first_ofd_xml_exec(entries: &[(String, Vec<u8>)]) -> (r: Option<String>)
    ensures
        match first_ofd_xml(entries_view(entries@)) {
            Some(n) => r matches Some(s) && s@ == n,
            None => r is None,
        },
{
    let mut i: usize = 0;
    assert(entries_view(entries@).skip(0) == entries_view(entries@));
    while i < entries.len()
        invariant
            i <= entries@.len(),
            first_ofd_xml(entries_view(entries@).skip(i as int)) == first_ofd_xml(entries_view(entries@)),
        decreases entries@.len() - i,
    {
        assert(entries_view(entries@).skip(i as int)[0] == (entries@[i as int].0@, entries@[i as int].1@));
        if crate::text::ends_with(entries[i].0.as_str(), "OFD.xml") {
            return Some(String::from_str(entries[i].0.as_str()));
        }
        assert(entries_view(entries@).skip(i as int).skip(1) == entries_view(entries@).skip(i + 1));
        i = i + 1;
    }
    assert(entries_view(entries@).skip(i as int).len() == 0);
    None
}

/// The signature description paths listed in the package's `OFD.xml`.
pub fn signature_paths(entries: &[(String, Vec<u8>)]) -> (r: OfdResult<Vec<String>>)
    ensures
        match signature_paths_outcome(entries_view(entries@)) {
            Ok(ps) => r matches Ok(v) && v@.map_values(|s: String| s@) == ps,
            Err(m) => r matches Err(OfdError::Conversion(e)) && e@ == m,
        },
{
    let name = match first_ofd_xml_exec(entries) {
        Some(n) => n,
        None => return Ok(Vec::new()),
    };
    let data = match lookup_entry(entries, name.as_str()) {
        Some(d) => d,
        None => return Ok(Vec::new()),
    };
    let text = string_from_utf8_lossy(data.as_slice());
    let root = match parse_ofd_root(text.as_str()) {
        Ok(r) => r,
        Err(e) => return Err(e),
    };
    let mut out: Vec<String> = Vec::new();
    let mut i: usize = 0;
    while i < root.signatures.len()
        invariant
            i <= root.signatures@.len(),
            out@.map_values(|s: String| s@) == root.signatures@.take(i as int).map_values(
                |r: SignatureRef| r.path@,
            ),
        decreases root.signatures@.len() - i,
    {
        let p = String::from_str(root.signatures[i].path.as_str());
        let ghost pv = p@;
        let ghost prev = out@.map_values(|s: String| s@);
        out.push(p);
        assert(out@.map_values(|s: String| s@) =~= prev.push(pv));
        assert(root.signatures@.take(i + 1).map_values(|r: SignatureRef| r.path@) =~= root.signatures@.take(
            i as int,
        ).map_values(|r: SignatureRef| r.path@).push(pv));
        i = i + 1;
    }
    assert(root.signatures@.take(root.signatures@.len() as int) == root.signatures@);
    Ok(out)
}

fn verdict_at_exec(verdicts: &[bool], i: usize) -> (b: bool)
    ensures
        b == verdict_at(verdicts@, i as int),
{
    if i < verdicts.len() {
        verdicts[i]
    } else {
        true
    }
}

/// Whether verifying every listed signature would cut a public key text badly.
pub fn multi_would_panic(entries: &[(String, Vec<u8>)], verdicts: &[bool]) -> (b: bool)
    ensures
        b == (multi_verify_outcome(entries_view(entries@), verdicts@) is None),
{
    let paths = match signature_paths(entries) {
        Ok(p) => p,
        Err(_) => return false,
    };
    let ghost ps = paths@.map_values(|s: String| s@);
    let mut i: usize = 0;
    while i < paths.len()
        invariant
            i <= paths@.len(),
            ps == paths@.map_values(|s: String| s@),
            signature_paths_outcome(entries_view(entries@)) == Ok::<Seq<Seq<char>>, Seq<char>>(ps),
            singles_outcome(entries_view(entries@), ps.take(i as int), verdicts@) is Some,
        decreases paths@.len() - i,
    {
        assert(ps.take(i + 1).drop_last() == ps.take(i as int));
        assert(ps.take(i + 1).last() == paths@[i as int]@);
        let v = verdict_at_exec(verdicts, i);
        if single_checked(entries, paths[i].as_str(), v).is_none() {
            proof {
                assert(singles_outcome(entries_view(entries@), ps.take(i + 1), verdicts@) is None);
                lemma_singles_none(entries_view(entries@), ps, verdicts@, (i + 1) as nat);
            }
            return true;
        }
        i = i + 1;
    }
    assert(ps.take(ps.len() as int) == ps);
    false
}

/// Once a prefix of the signatures has a bad public key text, so has every longer prefix.
proof fn lemma_singles_none(es: Seq<EntryView>, ps: Seq<Seq<char>>, verdicts: Seq<bool>, k: nat)
    requires
        k <= ps.len(),
        singles_outcome(es, ps.take(k as int), verdicts) is None,
    ensures
        singles_outcome(es, ps, verdicts) is None,
    decreases ps.len() - k,
{
    if k < ps.len() {
        assert(ps.take((k + 1) as int).drop_last() == ps.take(k as int));
        lemma_singles_none(es, ps, verdicts, k + 1);
    } else {
        assert(ps.take(k as int) == ps);
    }
}

/// Verifies every signature listed in the package's `OFD.xml`; `verdicts[i]` is the seal
/// verdict for the `i`-th listed signature (a pass when missing).
pub fn verify_signature_multi_entries(entries: &[(String, Vec<u8>)], verdicts: &[bool]) -> (r: OfdResult<Vec<SignatureVerificationResult>>)
    requires
        multi_verify_outcome(entries_view(entries@), verdicts@) is Some,
    ensures
        match multi_verify_outcome(entries_view(entries@), verdicts@).unwrap() {
            Ok(vs) => r matches Ok(v) && v@.map_values(|x: SignatureVerificationResult| single_view(x)) == vs,
            Err(m) => r matches Err(OfdError::Conversion(e)) && e@ == m,
        },
{
    let paths = match signature_paths(entries) {
        Ok(p) => p,
        Err(e) => return Err(e),
    };
    let ghost ps = paths@.map_values(|s: String| s@);
    let ghost es = entries_view(entries@);
    proof {
        let vs = singles_outcome(es, ps, verdicts@);
        assert(vs is Some);
    }
    let mut results: Vec<SignatureVerificationResult> = Vec::new();
    let mut i: usize = 0;
    while i < paths.len()
        invariant
            i <= paths@.len(),
            ps == paths@.map_values(|s: String| s@),
            es == entries_view(entries@),
            singles_outcome(es, ps, verdicts@) is Some,
            singles_outcome(es, ps.take(i as int), verdicts@) == Some(
                results@.map_values(|x: SignatureVerificationResult| single_view(x)),
            ),
        decreases paths@.len() - i,
    {
        assert(ps.take(i + 1).drop_last() == ps.take(i as int));
        assert(ps.take(i + 1).last() == paths@[i as int]@);
        let v = verdict_at_exec(verdicts, i);
        if single_checked(entries, paths[i].as_str(), v).is_none() {
            proof {
                lemma_singles_none(es, ps, verdicts@, (i + 1) as nat);
            }
            return Ok(results);
        }
        let one = verify_single_from_entries(entries, paths[i].as_str(), v);
        let ghost ov = single_view(one);
        let ghost prev = results@.map_values(|x: SignatureVerificationResult| single_view(x));
        results.push(one);
        assert(results@.map_values(|x: SignatureVerificationResult| single_view(x)) =~= prev.push(ov));
        i = i + 1;
    }
    assert(ps.take(ps.len() as int) == ps);
    Ok(results)
}

/// Verifies every signature listed in a package (the bytes of a signed document).
pub fn verify_signature_multi(archive: &[u8], verdicts: &[bool]) -> (r: OfdResult<Vec<SignatureVerificationResult>>)
    requires
        zip_entries(archive@) matches Some(es) ==> multi_verify_outcome(es, verdicts@) is Some,
    ensures
        match zip_entries(archive@) {
            None => r is Err,
            Some(es) => match multi_verify_outcome(es, verdicts@).unwrap() {
                Ok(vs) => r matches Ok(v) && v@.map_values(|x: SignatureVerificationResult| single_view(x)) == vs,
                Err(m) => r matches Err(OfdError::Conversion(e)) && e@ == m,
            },
        },
{
    let entries = match read_zip_entries(archive) {
        Ok(e) => e,
        Err(e) => return Err(e),
    };
    verify_signature_multi_entries(entries.as_slice(), verdicts)
}

/// Verifies every listed signature, or `None` where one of them would cut its public key
/// text badly.
pub fn verify_signature_multi_checked(archive: &[u8], verdicts: &[bool]) -> (r: Option<OfdResult<Vec<SignatureVerificationResult>>>)
    ensures
        match zip_entries(archive@) {
            None => r matches Some(x) && x is Err,
            Some(es) => match multi_verify_outcome(es, verdicts@) {
                None => r is None,
                Some(Ok(vs)) => r matches Some(Ok(v)) && v@.map_values(
                    |x: SignatureVerificationResult| single_view(x),
                ) == vs,
                Some(Err(m)) => r matches Some(Err(OfdError::Conversion(e))) && e@ == m,
            },
        },
{
    let entries = match read_zip_entries(archive) {
        Ok(e) => e,
        Err(e) => return Some(Err(e)),
    };
    if multi_would_panic(entries.as_slice(), verdicts) {
        return None;
    }
    Some(verify_signature_multi(archive, verdicts))
}

/// The signature description paths listed in a package's `OFD.xml`.
pub fn signature_paths_of(archive: &[u8]) -> (r: OfdResult<Vec<String>>)
    ensures
        match zip_entries(archive@) {
            None => r is Err,
            Some(es) => match signature_paths_outcome(es) {
                Ok(ps) => r matches Ok(v) && v@.map_values(|s: String| s@) == ps,
                Err(m) => r matches Err(OfdError::Conversion(e)) && e@ == m,
            },
        },
{
    let entries = match read_zip_entries(archive) {
        Ok(e) => e,
        Err(e) => return Err(e),
    };
    signature_paths(entries.as_slice())
}

/// The seal file and signature value behind the seal verdict for the signature at
/// `sig_xml_path` of a package.
pub fn seal_check_inputs_of(archive: &[u8], sig_xml_path: &str) -> (r: OfdResult<Option<(Vec<u8>, Vec<u8>)>>)
    ensures
        match zip_entries(archive@) {
            None => r is Err,
            Some(es) => r matches Ok(o) && match seal_inputs(es, sig_xml_path@) {
                Some((a, b)) => o matches Some((x, y)) && x@ == a && y@ == b,
                None => o is None,
            },
        },
{
    let entries = match read_zip_entries(archive) {
        Ok(e) => e,
        Err(e) => return Err(e),
    };
    Ok(seal_check_inputs(entries.as_slice(), sig_xml_path))
}

/// Whether a signature's embedded seal matches the package's seal file, once the seal has
/// been looked for in the signed value: a signed value from which no seal can be taken
/// (not a seal signature) matches; otherwise the seal taken out must equal the seal file
/// byte for byte.
pub fn seal_match_verdict(embedded_seal: Option<&[u8]>, seal_esl_der: &[u8]) -> (b: bool)
    ensures
        b == match embedded_seal {
            None => true,
            Some(e) => e@ == seal_esl_der@,
        },
{
    match embedded_seal {
        None => true,
        Some(e) => crate::crl::bytes_eq(e, seal_esl_der),
    }
}

// ---- what a verdict says of the references ----

/// The references (name, method, digest text) listed by the signed description that the
/// signature description at `path` names, when both can be read.
pub open spec fn claimed_references(es: Seq<EntryView>, path: Seq<char>) -> Option<Seq<(Seq<char>, Seq<char>, Seq<char>)>> {
    match signature_top_at(es, path) {
        None => None,
        Some(top) => match entry_lookup(es, text_or(top.signed_info_ref, default_signed_info_path())) {
            None => None,
            Some(si) => match xml_tokens(utf8_lossy(si)) {
                Err(_) => None,
                Ok(evs) => Some(signed_info_entries(document_events(evs))),
            },
        },
    }
}

proof fn lemma_no_failures_all_intact(es: Seq<EntryView>, refs: Seq<(Seq<char>, Seq<char>, Seq<char>)>)
    requires
        reference_failures(es, refs).len() == 0,
    ensures
        forall|i: int| 0 <= i < refs.len() ==> (entry_lookup(es, #[trigger] refs[i].0) matches Some(d)
            && hex_text(sm3_digest(d)) == refs[i].2),
    decreases refs.len(),
{
    if refs.len() > 0 {
        let init = refs.drop_last();
        assert(ref_intact(es, refs.last()));
        assert(reference_failures(es, init).len() == 0);
        lemma_no_failures_all_intact(es, init);
        assert forall|i: int| 0 <= i < refs.len() implies (entry_lookup(es, #[trigger] refs[i].0) matches Some(d)
            && hex_text(sm3_digest(d)) == refs[i].2) by {
            if i < refs.len() - 1 {
                assert(init[i] == refs[i]);
            }
        }
    }
}

/// A reference whose file is missing, or whose file's SM3 digest text is not the one the
/// reference lists, is reported among the failures, by its name.
pub proof fn lemma_broken_reference_is_reported(es: Seq<EntryView>, refs: Seq<(Seq<char>, Seq<char>, Seq<char>)>, i: int)
    requires
        0 <= i < refs.len(),
        !(entry_lookup(es, refs[i].0) matches Some(d) && hex_text(sm3_digest(d)) == refs[i].2),
    ensures
        reference_failures(es, refs).contains(refs[i].0),
        reference_failures(es, refs).len() > 0,
    decreases refs.len(),
{
    let init = refs.drop_last();
    if i == refs.len() - 1 {
        let f = reference_failures(es, refs);
        assert(f.last() == refs[i].0);
        assert(f[f.len() - 1] == refs[i].0);
    } else {
        assert(init[i] == refs[i]);
        lemma_broken_reference_is_reported(es, init, i);
        let fi = reference_failures(es, init);
        let k = choose|k: int| 0 <= k < fi.len() && fi[k] == refs[i].0;
        let f = reference_failures(es, refs);
        if !ref_intact(es, refs.last()) {
            assert(f[k] == fi[k]);
        }
        assert(f[k] == refs[i].0);
    }
}

/// A signature found valid lists only intact references: every file its signed
/// description names exists and has the SM3 digest text the reference gives.
pub proof fn lemma_valid_signature_has_intact_references(es: Seq<EntryView>, path: Seq<char>, seal_ok: bool)
    requires
        single_outcome(es, path, seal_ok) matches Some(v) && v.1,
    ensures
        claimed_references(es, path) matches Some(refs) && forall|i: int| 0 <= i < refs.len() ==> (entry_lookup(
            es,
            #[trigger] refs[i].0,
        ) matches Some(d) && hex_text(sm3_digest(d)) == refs[i].2),
{
    let top = signature_top_at(es, path)->Some_0;
    let si = entry_lookup(es, text_or(top.signed_info_ref, default_signed_info_path()))->Some_0;
    let evs = xml_tokens(utf8_lossy(si))->Ok_0;
    lemma_no_failures_all_intact(es, signed_info_entries(document_events(evs)));
}

/// A package whose signature verifies lists only intact references: every file named by
/// the signed description of `Doc_0/Signs/Signature.xml` exists with the listed SM3 digest
/// text. So a missing or changed protected file never verifies.
pub proof fn lemma_verified_package_has_intact_references(es: Seq<EntryView>, seal_ok: bool)
    requires
        verify_outcome(es, seal_ok) == Some(Ok::<bool, Option<Seq<char>>>(true)),
    ensures
        claimed_references(es, "Doc_0/Signs/Signature.xml"@) matches Some(refs) && forall|i: int|
            0 <= i < refs.len() ==> (entry_lookup(es, #[trigger] refs[i].0) matches Some(d) && hex_text(
            sm3_digest(d),
        ) == refs[i].2),
{
    let sb = entry_lookup(es, "Doc_0/Signs/Signature.xml"@)->Some_0;
    let evs0 = xml_tokens(vstd::utf8::decode_utf8(sb))->Ok_0;
    let top = signature_top_fields(document_events(evs0));
    assert(signature_top_at(es, "Doc_0/Signs/Signature.xml"@) == Some(top));
    let si = entry_lookup(es, text_or(top.signed_info_ref, default_signed_info_path()))->Some_0;
    let evs = xml_tokens(utf8_lossy(si))->Ok_0;
    lemma_no_failures_all_intact(es, signed_info_entries(document_events(evs)));
}

proof fn lemma_singles_elements(es: Seq<EntryView>, paths: Seq<Seq<char>>, verdicts: Seq<bool>)
    requires
        singles_outcome(es, paths, verdicts) is Some,
    ensures
        singles_outcome(es, paths, verdicts)->Some_0.len() == paths.len(),
        forall|i: int| 0 <= i < paths.len() ==> single_outcome(es, #[trigger] paths[i], verdict_at(verdicts, i))
            == Some(singles_outcome(es, paths, verdicts)->Some_0[i]),
    decreases paths.len(),
{
    if paths.len() > 0 {
        let init = paths.drop_last();
        lemma_singles_elements(es, init, verdicts);
        let vs = singles_outcome(es, paths, verdicts)->Some_0;
        let prev = singles_outcome(es, init, verdicts)->Some_0;
        assert forall|i: int| 0 <= i < paths.len() implies single_outcome(es, #[trigger] paths[i], verdict_at(verdicts, i))
            == Some(vs[i]) by {
            if i < paths.len() - 1 {
                assert(init[i] == paths[i]);
                assert(vs[i] == prev[i]);
            }
        }
    }
}

/// Verifying every signature of a package: each result found valid belongs to a listed
/// signature whose signed description lists only intact references.
pub proof fn lemma_valid_results_have_intact_references(es: Seq<EntryView>, verdicts: Seq<bool>)
    requires
        multi_verify_outcome(es, verdicts) matches Some(Ok(vs)),
    ensures
        signature_paths_outcome(es) matches Ok(paths) && ({
            let vs = multi_verify_outcome(es, verdicts)->Some_0->Ok_0;
            &&& vs.len() == paths.len()
            &&& forall|i: int| 0 <= i < vs.len() && (#[trigger] vs[i]).1 ==> (claimed_references(es, paths[i]) matches Some(
                refs,
            ) && forall|k: int| 0 <= k < refs.len() ==> (entry_lookup(es, #[trigger] refs[k].0) matches Some(d)
                && hex_text(sm3_digest(d)) == refs[k].2))
        }),
{
    let paths = signature_paths_outcome(es)->Ok_0;
    lemma_singles_elements(es, paths, verdicts);
    let vs = multi_verify_outcome(es, verdicts)->Some_0->Ok_0;
    assert forall|i: int| 0 <= i < vs.len() && (#[trigger] vs[i]).1 implies (claimed_references(es, paths[i]) matches Some(
        refs,
    ) && forall|k: int| 0 <= k < refs.len() ==> (entry_lookup(es, #[trigger] refs[k].0) matches Some(d)
        && hex_text(sm3_digest(d)) == refs[k].2)) by {
        assert(single_outcome(es, paths[i], verdict_at(verdicts, i)) == Some(vs[i]));
        lemma_valid_signature_has_intact_references(es, paths[i], verdict_at(verdicts, i));
    }
}

} // verus!
