//! Exceptions raised while signing and verifying documents.
//!
//! Each exception renders its message with a fixed prefix through `to_string`. An
//! underlying cause is kept as the text it renders to.
use vstd::prelude::*;
use crate::text::push_str;

verus! {

/// A general signing failure.
#[derive(Debug, Clone)]
pub struct SignatureException {
    message: String,
    source: Option<String>,
}

impl View for SignatureException {
    /// The message and the rendered cause, if any.
    type V = (Seq<char>, Option<Seq<char>>);

    closed spec fn view(&self) -> (Seq<char>, Option<Seq<char>>) {
        (self.message@, match self.source {
            Some(s) => Some(s@),
            None => None,
        })
    }
}

/// The text after `prefix` when it renders `message`.
pub open spec fn prefixed(prefix: Seq<char>, message: Seq<char>) -> Seq<char> {
    prefix + message
}

fn prefixed_string(prefix: &str, message: &str) -> (s: String)
    ensures
        s@ == prefixed(prefix@, message@),
{
    let mut s = String::from_str(prefix);
    push_str(&mut s, message);
    s
}

impl SignatureException {
    /// An exception with a message and no cause.
    pub fn new(message: &str) -> (e: Self)
        ensures
            e@ == (message@, None::<Seq<char>>),
    {
        SignatureException { message: String::from_str(message), source: None }
    }

    /// An exception with a message and the rendered text of its cause.
    pub fn with_source(message: &str, source: String) -> (e: Self)
        ensures
            e@ == (message@, Some(source@)),
    {
        SignatureException { message: String::from_str(message), source: Some(source) }
    }

    /// The rendered cause, if any.
    pub fn source(&self) -> (r: Option<&String>)
        ensures
            match r {
                Some(s) => self@.1 == Some(s@),
                None => self@.1 is None,
            },
    {
        match &self.source {
            Some(s) => Some(s),
            None => None,
        }
    }

    /// `签名异常: ` followed by the message.
    pub fn to_string(&self) -> (s: String)
        ensures
            s@ == prefixed("签名异常: "@, self@.0),
    {
        prefixed_string("签名异常: ", self.message.as_str())
    }
}

/// Signing must stop: the document accepts no further signature.
#[derive(Debug, Clone)]
pub struct SignatureTerminateException {
    inner: SignatureException,
}

impl View for SignatureTerminateException {
    type V = (Seq<char>, Option<Seq<char>>);

    closed spec fn view(&self) -> (Seq<char>, Option<Seq<char>>) {
        self.inner@
    }
}

impl SignatureTerminateException {
    /// An exception with a message and no cause.
    pub fn new(message: &str) -> (e: Self)
        ensures
            e@ == (message@, None::<Seq<char>>),
    {
        SignatureTerminateException { inner: SignatureException::new(message) }
    }

    /// The cause of the inner signing exception, if any.
    pub fn source(&self) -> (r: Option<&String>)
        ensures
            match r {
                Some(s) => self@.1 == Some(s@),
                None => self@.1 is None,
            },
    {
        self.inner.source()
    }

    /// `签名终止: ` followed by the message.
    pub fn to_string(&self) -> (s: String)
        ensures
            s@ == prefixed("签名终止: "@, self@.0),
    {
        prefixed_string("签名终止: ", self.inner.message.as_str())
    }
}

/// A general verification failure.
#[derive(Debug, Clone)]
pub struct OfdVerifyException {
    message: String,
    source: Option<String>,
}

impl View for OfdVerifyException {
    type V = (Seq<char>, Option<Seq<char>>);

    closed spec fn view(&self) -> (Seq<char>, Option<Seq<char>>) {
        (self.message@, match self.source {
            Some(s) => Some(s@),
            None => None,
        })
    }
}

impl OfdVerifyException {
    /// An exception with a message and no cause.
    pub fn new(message: &str) -> (e: Self)
        ensures
            e@ == (message@, None::<Seq<char>>),
    {
        OfdVerifyException { message: String::from_str(message), source: None }
    }

    /// An exception with a message and the rendered text of its cause.
    pub fn with_source(message: &str, source: String) -> (e: Self)
        ensures
            e@ == (message@, Some(source@)),
    {
        OfdVerifyException { message: String::from_str(message), source: Some(source) }
    }

    /// The rendered cause, if any.
    pub fn source(&self) -> (r: Option<&String>)
        ensures
            match r {
                Some(s) => self@.1 == Some(s@),
                None => self@.1 is None,
            },
    {
        match &self.source {
            Some(s) => Some(s),
            None => None,
        }
    }

    /// `OFD 验证异常: ` followed by the message.
    pub fn to_string(&self) -> (s: String)
        ensures
            s@ == prefixed("OFD 验证异常: "@, self@.0),
    {
        prefixed_string("OFD 验证异常: ", self.message.as_str())
    }
}

/// Signed data that no longer holds, with an optional status code.
#[derive(Debug, Clone)]
pub struct InvalidSignedValueException {
    reason: String,
    code: Option<i32>,
}

impl View for InvalidSignedValueException {
    type V = (Seq<char>, Option<i32>);

    closed spec fn view(&self) -> (Seq<char>, Option<i32>) {
        (self.reason@, self.code)
    }
}

impl InvalidSignedValueException {
    /// An exception with a reason and no code.
    pub fn new(reason: &str) -> (e: Self)
        ensures
            e@ == (reason@, None::<i32>),
    {
        InvalidSignedValueException { reason: String::from_str(reason), code: None }
    }

    /// The same exception with the status code set.
    pub fn with_code(self, code: i32) -> (e: Self)
        ensures
            e@ == (self@.0, Some(code)),
    {
        InvalidSignedValueException { reason: self.reason, code: Some(code) }
    }

    /// The reason.
    pub fn reason(&self) -> (r: &str)
        ensures
            r@ == self@.0,
    {
        self.reason.as_str()
    }

    /// The status code, if any.
    pub fn code(&self) -> (c: Option<i32>)
        ensures
            c == self@.1,
    {
        self.code
    }

    /// `电子签章数据失效: ` followed by the reason.
    pub fn to_string(&self) -> (s: String)
        ensures
            s@ == prefixed("电子签章数据失效: "@, self@.0),
    {
        prefixed_string("电子签章数据失效: ", self.reason.as_str())
    }
}

/// A protected file whose digest no longer matches.
#[derive(Debug, Clone)]
pub struct FileIntegrityException {
    file_abs_path: String,
    expected_hash: Vec<u8>,
    actual_hash: Vec<u8>,
}

impl View for FileIntegrityException {
    /// Path of the file in the package, expected digest, actual digest.
    type V = (Seq<char>, Seq<u8>, Seq<u8>);

    closed spec fn view(&self) -> (Seq<char>, Seq<u8>, Seq<u8>) {
        (self.file_abs_path@, self.expected_hash@, self.actual_hash@)
    }
}

impl FileIntegrityException {
    /// An exception for the file at `file_abs_path`.
    pub fn new(file_abs_path: &str, expected_hash: Vec<u8>, actual_hash: Vec<u8>) -> (e: Self)
        ensures
            e@ == (file_abs_path@, expected_hash@, actual_hash@),
    {
        FileIntegrityException {
            file_abs_path: String::from_str(file_abs_path),
            expected_hash,
            actual_hash,
        }
    }

    /// Path of the altered file in the package.
    pub fn file_path(&self) -> (r: &str)
        ensures
            r@ == self@.0,
    {
        self.file_abs_path.as_str()
    }

    /// The digest the signature protects.
    pub fn expected_hash(&self) -> (r: &[u8])
        ensures
            r@ == self@.1,
    {
        self.expected_hash.as_slice()
    }

    /// The digest of the file as found.
    pub fn actual_hash(&self) -> (r: &[u8])
        ensures
            r@ == self@.2,
    {
        self.actual_hash.as_slice()
    }

    /// `文件被篡改: ` followed by the path.
    pub fn to_string(&self) -> (s: String)
        ensures
            s@ == prefixed("文件被篡改: "@, self@.0),
    {
        prefixed_string("文件被篡改: ", self.file_abs_path.as_str())
    }
}

/// The document carries no signature.
#[derive(Debug, Clone)]
pub struct DocNotSignException {
    message: String,
}

impl View for DocNotSignException {
    type V = Seq<char>;

    closed spec fn view(&self) -> Seq<char> {
        self.message@
    }
}

impl DocNotSignException {
    /// An exception with a message.
    pub fn new(message: &str) -> (e: Self)
        ensures
            e@ == message@,
    {
        DocNotSignException { message: String::from_str(message) }
    }

    /// `文件未签章: ` followed by the message.
    pub fn to_string(&self) -> (s: String)
        ensures
            s@ == prefixed("文件未签章: "@, self@),
    {
        prefixed_string("文件未签章: ", self.message.as_str())
    }
}

impl Default for DocNotSignException {
    /// The message `文档未签章`.
    fn default() -> (e: Self)
        ensures
            e@ == "文档未签章"@,
    {
        DocNotSignException { message: String::from_str("文档未签章") }
    }
}

} // verus!
