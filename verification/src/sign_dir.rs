//! A signature container directory (`Sign_N`) and the files it holds.
use vstd::prelude::*;
use crate::numtext::{parse_u32, parse_u32_spec, IntParseError};
use crate::paths::{file_name, file_name_of, join_path, path_join, remove_all, remove_all_of};
use crate::text::push_str;

verus! {

/// Prefix of a signature container directory's name.
pub const SIGN_CONTAINER_PREFIX: &'static str = "Sign_";

/// Name of the seal file.
pub const SEAL_FILE_NAME: &'static str = "Seal.esl";

/// Name of the signature description file.
pub const SIGNATURE_FILE_NAME: &'static str = "Signature.xml";

/// Name of the signed value file.
pub const SIGNED_VALUE_FILE_NAME: &'static str = "SignedValue.dat";

/// The last component of `path`, or nothing.
pub open spec fn container_name_of(path: Seq<char>) -> Seq<char> {
    match file_name(path) {
        Some(n) => n,
        None => Seq::empty(),
    }
}

/// The index text of a container directory: its name without the prefix.
pub open spec fn index_text_of(path: Seq<char>) -> Seq<char> {
    remove_all(container_name_of(path), SIGN_CONTAINER_PREFIX@)
}

/// The message for an index that is not a number.
pub open spec fn index_error_message(e: IntParseError) -> Seq<char> {
    "解析签名索引失败: "@ + e.message_spec()
}

/// A signature container directory.
#[derive(Debug, Clone)]
pub struct SignDir {
    /// Path of the directory.
    pub path: String,
    /// Its name without the `Sign_` prefix.
    pub index_str: String,
}

impl SignDir {
    /// The container at `path`.
    pub fn new(path: &str) -> (r: Self)
        ensures
            r.path@ == path@,
            r.index_str@ == index_text_of(path@),
    {
        proof {
            reveal_strlit("Sign_");
        }
        let name = match file_name_of(path) {
            Some(n) => n,
            None => String::new(),
        };
        let index_str = remove_all_of(name.as_str(), SIGN_CONTAINER_PREFIX);
        SignDir { path: String::from_str(path), index_str }
    }

    /// The index as a number.
    pub fn index(&self) -> (r: Result<u32, String>)
        ensures
            match parse_u32_spec(self.index_str@) {
                Ok(n) => r == Ok::<u32, String>(n),
                Err(e) => r matches Err(m) && m@ == index_error_message(e),
            },
    {
        match parse_u32(self.index_str.as_str()) {
            Ok(n) => Ok(n),
            Err(e) => {
                let mut m = String::from_str("解析签名索引失败: ");
                let detail = e.message();
                push_str(&mut m, detail.as_str());
                Err(m)
            },
        }
    }

    /// The index text.
    pub fn index_str(&self) -> (r: &str)
        ensures
            r@ == self.index_str@,
    {
        self.index_str.as_str()
    }

    /// Path of the signature description file.
    pub fn signature_path(&self) -> (r: String)
        ensures
            r@ == path_join(self.path@, SIGNATURE_FILE_NAME@),
    {
        join_path(self.path.as_str(), SIGNATURE_FILE_NAME)
    }

    /// Path of the seal file.
    pub fn seal_path(&self) -> (r: String)
        ensures
            r@ == path_join(self.path@, SEAL_FILE_NAME@),
    {
        join_path(self.path.as_str(), SEAL_FILE_NAME)
    }

    /// Path of the signed value file.
    pub fn signed_value_path(&self) -> (r: String)
        ensures
            r@ == path_join(self.path@, SIGNED_VALUE_FILE_NAME@),
    {
        join_path(self.path.as_str(), SIGNED_VALUE_FILE_NAME)
    }

    /// The directory's name (empty when the path has none).
    pub fn container_name(&self) -> (r: String)
        ensures
            r@ == container_name_of(self.path@),
    {
        match file_name_of(self.path.as_str()) {
            Some(n) => n,
            None => String::new(),
        }
    }
}

} // verus!
