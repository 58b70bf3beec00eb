//! Signature containers and the values around them: the kind of signature node, the files
//! to digest, which files to protect, and which old signatures to clear.
use vstd::prelude::*;

verus! {

/// Object identifier of SM2 signatures over SM3 digests.
pub const SM2_SM3_OID_STR: &'static str = "1.2.156.10197.1.501";

/// The default SM2 user identifier (GB/T 32918.2-2016).
pub const SM2_DEFAULT_USER_ID: &'static str = "1234567812345678";

/// The kind of a signature node.
#[derive(Debug, Clone, Copy, PartialEq, Eq, Hash, Structural)]
pub enum SigType {
    /// A seal (with an image).
    Seal,
    /// A plain signature.
    Sign,
}

impl SigType {
    /// `Seal` or `Sign`.
    pub fn to_string(&self) -> (s: String)
        ensures
            s@ == match *self {
                SigType::Seal => "Seal"@,
                SigType::Sign => "Sign"@,
            },
    {
        match self {
            SigType::Seal => String::from_str("Seal"),
            SigType::Sign => String::from_str("Sign"),
        }
    }
}

/// A container that produces signature values, for signers to implement.
pub trait ExtendSignatureContainer {
    /// Object identifier of the signature algorithm.
    fn sign_alg_oid(&self) -> &str;

    /// Signs `in_data` (the signature description) with the given seal property text.
    fn sign(&self, in_data: &[u8], property_info: &str) -> Vec<u8>;

    /// The encoded seal, when the container signs with one.
    fn seal(&self) -> Option<Vec<u8>>;

    /// The kind of signature node produced.
    fn sign_type(&self) -> SigType;
}

/// A file to digest: its absolute path in the package and its path on disk.
#[derive(Debug, Clone)]
pub struct ToDigestFileInfo {
    abs_path: String,
    sys_path: String,
}

impl View for ToDigestFileInfo {
    /// Package path and file-system path.
    type V = (Seq<char>, Seq<char>);

    closed spec fn view(&self) -> (Seq<char>, Seq<char>) {
        (self.abs_path@, self.sys_path@)
    }
}

impl ToDigestFileInfo {
    /// The file at `abs_path` in the package, read from `sys_path`.
    pub fn new(abs_path: &str, sys_path: &str) -> (r: Self)
        ensures
            r@ == (abs_path@, sys_path@),
    {
        ToDigestFileInfo { abs_path: String::from_str(abs_path), sys_path: String::from_str(sys_path) }
    }

    /// Path in the package.
    pub fn abs_path(&self) -> (r: &str)
        ensures
            r@ == self@.0,
    {
        self.abs_path.as_str()
    }

    /// Path on disk.
    pub fn sys_path(&self) -> (r: &str)
        ensures
            r@ == self@.1,
    {
        self.sys_path.as_str()
    }

    /// Replaces the package path.
    pub fn set_abs_path(&mut self, abs_path: &str)
        ensures
            final(self)@ == (abs_path@, old(self)@.1),
    {
        self.abs_path = String::from_str(abs_path);
    }

    /// Replaces the path on disk.
    pub fn set_sys_path(&mut self, sys_path: &str)
        ensures
            final(self)@ == (old(self)@.0, sys_path@),
    {
        self.sys_path = String::from_str(sys_path);
    }
}

/// Decides which package files a signature protects, for signers to implement.
pub trait ProtectFileFilter {
    /// Whether the file at `path` is protected.
    fn should_protect(&self, path: &str) -> bool;
}

/// The signature directories to clear from a document.
#[derive(Debug, Clone)]
pub struct SignCleaner {
    sign_dirs: Vec<String>,
}

impl View for SignCleaner {
    /// The directories, in the order added.
    type V = Seq<Seq<char>>;

    closed spec fn view(&self) -> Seq<Seq<char>> {
        self.sign_dirs@.map_values(|d: String| d@)
    }
}

impl SignCleaner {
    /// Nothing to clear.
    pub fn new() -> (r: Self)
        ensures
            r@ == Seq::<Seq<char>>::empty(),
    {
        SignCleaner { sign_dirs: Vec::new() }
    }

    /// Adds a directory to clear.
    pub fn add_sign_dir(&mut self, dir: &str)
        ensures
            final(self)@ == old(self)@.push(dir@),
    {
        self.sign_dirs.push(String::from_str(dir));
        assert(self@ =~= old(self)@.push(dir@));
    }

    /// The directories to clear.
    pub fn sign_dirs(&self) -> (r: &[String])
        ensures
            r@.map_values(|d: String| d@) == self@,
    {
        self.sign_dirs.as_slice()
    }

    /// Whether any directory is to be cleared.
    pub fn has_signs(&self) -> (b: bool)
        ensures
            b == (self@.len() > 0),
    {
        self.sign_dirs.len() > 0
    }
}

impl Default for SignCleaner {
    fn default() -> (r: Self)
        ensures
            r@ == Seq::<Seq<char>>::empty(),
    {
        Self::new()
    }
}

} // verus!
