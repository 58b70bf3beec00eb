//! The plain-HTTP POST exchange used to ask an OCSP responder: reading the URL, writing the
//! request header, and reading the body out of the response. The connection itself is the
//! caller's.
use vstd::prelude::*;
use crate::multi::between;
use crate::numtext::{parse_u32, parse_u32_spec, push_decimal, push_usize, decimal_chars};
use crate::ofd_error::{OfdError, OfdResult};
use crate::text::{chars_of, find_chars, find_from, find_in, push_str, substring_of, utf8_decode, utf8_error_text};

verus! {

/// The port a `host:port` text names: the number after the last `:` when it parses as a
/// 16-bit number, else 80.
pub open spec fn port_of(p: Seq<char>) -> u16 {
    match parse_u32_spec(p) {
        Ok(v) => if v <= 0xFFFF {
            v as u16
        } else {
            80
        },
        Err(_) => 80,
    }
}

/// Index of the last `:` in `s`, or -1.
pub open spec fn last_colon_index(s: Seq<char>) -> int
    decreases s.len(),
{
    if s.len() == 0 {
        -1
    } else if s.last() == ':' {
        s.len() - 1
    } else {
        last_colon_index(s.drop_last())
    }
}

proof fn lemma_last_colon_bounds(s: Seq<char>)
    ensures
        -1 <= last_colon_index(s) < s.len(),
    decreases s.len(),
{
    if s.len() > 0 && s.last() != ':' {
        lemma_last_colon_bounds(s.drop_last());
    }
}

/// The parts of an `http://` URL: host, port (80 by default) and path (`/` by default); or
/// the message for a URL of another scheme.
pub open spec fn http_url_parts(url: Seq<char>) -> Result<(Seq<char>, u16, Seq<char>), Seq<char>> {
    let prefix = "http://"@;
    if url.len() < prefix.len() || url.subrange(0, prefix.len() as int) != prefix {
        Err("OCSP URL must be http:// ("@ + url + ")"@)
    } else {
        let rest = url.skip(prefix.len() as int);
        let (host_port, path) = match find_in(rest, "/"@) {
            Some(i) => (rest.subrange(0, i), rest.skip(i)),
            None => (rest, "/"@),
        };
        let c = last_colon_index(host_port);
        if c < 0 {
            Ok((host_port, 80, path))
        } else {
            Ok((host_port.subrange(0, c), port_of(host_port.skip(c + 1)), path))
        }
    }
}

fn last_colon_exec(cs: &[char]) -> (r: Option<usize>)
    ensures
        match r {
            Some(i) => i as int == last_colon_index(cs@),
            None => last_colon_index(cs@) == -1,
        },
{
    let mut i = cs.len();
    assert(cs@.take(i as int) == cs@);
    while i > 0
        invariant
            i <= cs@.len(),
            last_colon_index(cs@) == last_colon_index(cs@.take(i as int)),
        decreases i,
    {
        assert(cs@.take(i as int).drop_last() == cs@.take(i - 1));
        if cs[i - 1] == ':' {
            return Some(i - 1);
        }
        i = i - 1;
    }
    None
}

/// Reads an `http://` URL into host, port and path.
pub fn parse_http_url(url: &str) -> (r: OfdResult<(String, u16, String)>)
    ensures
        match http_url_parts(url@) {
            Ok((h, p, path)) => r matches Ok((rh, rp, rpath)) && rh@ == h && rp == p && rpath@ == path,
            Err(m) => r matches Err(OfdError::Conversion(e)) && e@ == m,
        },
{
    let cs = chars_of(url);
    let prefix = chars_of("http://");
    proof {
        reveal_strlit("http://");
        reveal_strlit("/");
    }
    let mut ok = cs.len() >= 7;
    if ok {
        let mut k: usize = 0;
        while k < 7
            invariant
                k <= 7 <= cs@.len(),
                prefix@ == "http://"@,
                prefix@.len() == 7,
                ok ==> forall|j: int| 0 <= j < k ==> cs@[j] == prefix@[j],
                !ok ==> cs@.subrange(0, 7) != prefix@,
            decreases 7 - k,
        {
            if cs[k] != prefix[k] {
                assert(cs@.subrange(0, 7)[k as int] != prefix@[k as int]);
                ok = false;
            }
            k = k + 1;
        }
        if ok {
            assert(cs@.subrange(0, 7) =~= prefix@);
        }
    }
    if !ok {
        let mut m = String::from_str("OCSP URL must be http:// (");
        push_str(&mut m, url);
        push_str(&mut m, ")");
        return Err(OfdError::Conversion(m));
    }
    let rest = substring_of(cs.as_slice(), 7, cs.len());
    let rs = chars_of(rest.as_str());
    let slash = chars_of("/");
    let (host_port, path) = match find_chars(rs.as_slice(), slash.as_slice(), 0) {
        Some(i) => {
            proof {
                crate::multi::lemma_find_from_bounds(rs@, slash@, 0);
            }
            (substring_of(rs.as_slice(), 0, i), substring_of(rs.as_slice(), i, rs.len()))
        },
        None => (rest, String::from_str("/")),
    };
    let hp = chars_of(host_port.as_str());
    match last_colon_exec(hp.as_slice()) {
        None => Ok((host_port, 80, path)),
        Some(c) => {
            proof {
                lemma_last_colon_bounds(hp@);
            }
            let host = substring_of(hp.as_slice(), 0, c);
            let port_text = substring_of(hp.as_slice(), c + 1, hp.len());
            let port: u16 = match parse_u32(port_text.as_str()) {
                Ok(v) => if v <= 0xFFFF {
                    v as u16
                } else {
                    80
                },
                Err(_) => 80,
            };
            Ok((host, port, path))
        },
    }
}

/// The request header of a POST with a body of `body_len` bytes.
pub open spec fn http_request_header(path: Seq<char>, host: Seq<char>, content_type: Seq<char>, body_len: nat) -> Seq<char> {
    "POST "@ + path + " HTTP/1.1\r\nHost: "@ + host + "\r\nContent-Type: "@ + content_type
        + "\r\nContent-Length: "@ + decimal_chars(body_len) + "\r\nConnection: close\r\n\r\n"@
}

/// Writes the request header of a POST.
pub fn build_http_request_header(path: &str, host: &str, content_type: &str, body_len: usize) -> (r: String)
    ensures
        r@ == http_request_header(path@, host@, content_type@, body_len as nat),
{
    let mut s = String::from_str("POST ");
    push_str(&mut s, path);
    push_str(&mut s, " HTTP/1.1\r\nHost: ");
    push_str(&mut s, host);
    push_str(&mut s, "\r\nContent-Type: ");
    push_str(&mut s, content_type);
    push_str(&mut s, "\r\nContent-Length: ");
    push_usize(&mut s, body_len);
    push_str(&mut s, "\r\nConnection: close\r\n\r\n");
    s
}

/// The first line of a text, as `str::lines` gives it (without its `\r`), or nothing.
pub open spec fn first_line(t: Seq<char>) -> Seq<char> {
    match find_in(t, "\n"@) {
        Some(i) => if i > 0 && t[i - 1] == '\r' {
            t.subrange(0, i - 1)
        } else {
            t.subrange(0, i)
        },
        None => t,
    }
}

/// The body of an HTTP response: what follows the first blank line, when the header is
/// UTF-8 and its status line holds ` 200 `; or the message of the failing check.
pub open spec fn http_body_outcome(r: Seq<u8>) -> Result<Seq<u8>, Seq<char>> {
    match first_crlfcrlf(r, 0) {
        None => Err("OCSP: no HTTP header end"@),
        Some(e) => {
            let head = r.subrange(0, e);
            if !vstd::utf8::valid_utf8(head) {
                Err("OCSP headers: "@ + utf8_error_text(head))
            } else {
                let status = first_line(vstd::utf8::decode_utf8(head));
                if find_in(status, " 200 "@) is None {
                    Err("OCSP HTTP: "@ + status)
                } else {
                    Ok(r.skip(e + 4))
                }
            }
        },
    }
}

/// The first position at or after `i` where `\r\n\r\n` starts.
pub open spec fn first_crlfcrlf(r: Seq<u8>, i: int) -> Option<int>
    decreases r.len() - i,
{
    if i < 0 || i + 4 > r.len() {
        None
    } else if r[i] == 13 && r[i + 1] == 10 && r[i + 2] == 13 && r[i + 3] == 10 {
        Some(i)
    } else {
        first_crlfcrlf(r, i + 1)
    }
}

proof fn lemma_first_crlfcrlf_bounds(r: Seq<u8>, i: int)
    ensures
        first_crlfcrlf(r, i) matches Some(e) ==> 0 <= i <= e && e + 4 <= r.len(),
    decreases r.len() - i,
{
    if !(i < 0 || i + 4 > r.len()) && !(r[i] == 13 && r[i + 1] == 10 && r[i + 2] == 13 && r[i + 3] == 10) {
        lemma_first_crlfcrlf_bounds(r, i + 1);
    }
}

fn first_line_exec(t: &str) -> (r: String)
    ensures
        r@ == first_line(t@),
{
    let cs = chars_of(t);
    let nl = chars_of("\n");
    match find_chars(cs.as_slice(), nl.as_slice(), 0) {
        Some(i) => {
            proof {
                crate::multi::lemma_find_from_bounds(cs@, nl@, 0);
            }
            if i > 0 && cs[i - 1] == '\r' {
                substring_of(cs.as_slice(), 0, i - 1)
            } else {
                substring_of(cs.as_slice(), 0, i)
            }
        },
        None => substring_of(cs.as_slice(), 0, cs.len()),
    }
}

fn find_header_end(r: &[u8]) -> (res: Option<usize>)
    ensures
        match first_crlfcrlf(r@, 0) {
            Some(e) => res == Some(e as usize),
            None => res is None,
        },
{
    let n = r.len();
    let mut i: usize = 0;
    while i < n && n - i >= 4
        invariant
            i <= n == r@.len(),
            first_crlfcrlf(r@, 0) == first_crlfcrlf(r@, i as int),
        decreases n - i,
    {
        if r[i] == 13 && r[i + 1] == 10 && r[i + 2] == 13 && r[i + 3] == 10 {
            return Some(i);
        }
        i = i + 1;
    }
    None
}

/// The body of an HTTP response, once its header checks out.
pub fn http_response_body(response: &[u8]) -> (r: OfdResult<Vec<u8>>)
    ensures
        match http_body_outcome(response@) {
            Ok(b) => r matches Ok(v) && v@ == b,
            Err(m) => r matches Err(OfdError::Conversion(e)) && e@ == m,
        },
{
    let n = response.len();
    let e = match find_header_end(response) {
        None => return Err(OfdError::Conversion(String::from_str("OCSP: no HTTP header end"))),
        Some(e) => e,
    };
    proof {
        lemma_first_crlfcrlf_bounds(response@, 0);
    }
    let mut head: Vec<u8> = Vec::new();
    let mut k: usize = 0;
    while k < e
        invariant
            k <= e,
            e + 4 <= n == response@.len(),
            head@ == response@.subrange(0, k as int),
        decreases e - k,
    {
        head.push(response[k]);
        assert(response@.subrange(0, k + 1) == response@.subrange(0, k as int).push(response@[k as int]));
        k = k + 1;
    }
    let headers = match crate::text::string_from_utf8(head) {
        Ok(h) => h,
        Err(detail) => {
            let mut m = String::from_str("OCSP headers: ");
            push_str(&mut m, detail.as_str());
            return Err(OfdError::Conversion(m));
        },
    };
    let status = first_line_exec(headers.as_str());
    if !crate::text::contains_str(status.as_str(), " 200 ") {
        let mut m = String::from_str("OCSP HTTP: ");
        push_str(&mut m, status.as_str());
        return Err(OfdError::Conversion(m));
    }
    let mut body: Vec<u8> = Vec::new();
    let mut j: usize = e + 4;
    while j < n
        invariant
            e + 4 <= j <= n == response@.len(),
            body@ == response@.subrange(e + 4, j as int),
        decreases n - j,
    {
        body.push(response[j]);
        assert(response@.subrange(e + 4, j + 1) == response@.subrange(e + 4, j as int).push(response@[j as int]));
        j = j + 1;
    }
    assert(response@.skip(e + 4) == response@.subrange(e + 4, n as int));
    Ok(body)
}

} // verus!
