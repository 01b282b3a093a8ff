//! Stable application identity.
//!
//! An application is identified by a primary string key (package identifier,
//! desktop-entry identifier, or canonicalized executable path) plus an
//! optional content digest of its binary.  The identity is computed once per
//! request by an external resolver and used only as a lookup key afterwards.
//! Path canonicalization and file reading happen outside this crate; the
//! constructors here receive the canonical path and the file bytes as plain
//! values.

use vstd::prelude::*;

verus! {

/// Stable application identifier: the policy and audit key.
#[derive(Debug)]
pub struct AppId {
    /// Primary identifier: package id, desktop-entry id, or canonical path.
    pub primary: String,
    /// Optional digest of the binary, for tamper detection.
    pub binary_hash: Option<String>,
}

/// The lowercase hex digest that SHA-256 assigns to the given bytes.  The
/// digest is a function of the bytes alone.
pub uninterp spec fn sha256_of(bytes: Seq<u8>) -> Seq<u8>;

/// The lowercase hex rendering of a byte string.
pub uninterp spec fn hex_of(bytes: Seq<u8>) -> Seq<char>;

/// Relies on sha2::Sha256::digest: a 32-byte digest determined by the input
/// bytes alone.
#[verifier::external_body]
fn sha256_digest(bytes: &Vec<u8>) -> (r: Vec<u8>)
    ensures
        r@ == sha256_of(bytes@),
        r@.len() == 32,
{
    <sha2::Sha256 as sha2::Digest>::digest(bytes.as_slice()).to_vec()
}

/// Relies on hex::encode: two lowercase hex digits for each input byte.
#[verifier::external_body]
fn hex_encode(bytes: &Vec<u8>) -> (r: String)
    ensures
        r@ == hex_of(bytes@),
        r@.len() == 2 * bytes@.len(),
{
    hex::encode(bytes.as_slice())
}

/// The digest string stored in an `AppId` for a binary with these contents.
pub open spec fn content_digest(bytes: Seq<u8>) -> Seq<char> {
    hex_of(sha256_of(bytes))
}

/// Equality of optional digest strings, by their text.
pub open spec fn opt_string_eq(a: Option<String>, b: Option<String>) -> bool {
    match (a, b) {
        (Option::Some(x), Option::Some(y)) => x@ == y@,
        (Option::None, Option::None) => true,
        _ => false,
    }
}

/// Equality of identities: same primary key text and same recorded digest.
pub open spec fn app_id_eq(a: &AppId, b: &AppId) -> bool {
    a.primary@ == b.primary@ && opt_string_eq(a.binary_hash, b.binary_hash)
}

impl AppId {
    /// Identity of a packaged (Flatpak) application: the package id verbatim,
    /// no digest.
    pub fn from_flatpak(flatpak_id: String) -> (r: Self)
        ensures
            r.primary == flatpak_id,
            r.binary_hash is None,
    {
        AppId { primary: flatpak_id, binary_hash: None }
    }

    /// Identity from a desktop-entry id: the id verbatim, no digest.
    pub fn from_desktop(desktop_id: String) -> (r: Self)
        ensures
            r.primary == desktop_id,
            r.binary_hash is None,
    {
        AppId { primary: desktop_id, binary_hash: None }
    }

    /// Identity of an executable.  The caller resolves the path to canonical
    /// form and, when tamper detection is wanted, reads the file; this
    /// constructor records the canonical path and the digest of those bytes.
    pub fn from_executable(canonical_path: String, contents: Option<&Vec<u8>>) -> (r: Self)
        ensures
            r.primary == canonical_path,
            match contents {
                Option::Some(bytes) => match r.binary_hash {
                    Option::Some(h) => h@ == content_digest(bytes@),
                    Option::None => false,
                },
                Option::None => r.binary_hash is None,
            },
    {
        let binary_hash = match contents {
            Some(bytes) => Some(Self::compute_hash(bytes)),
            None => None,
        };
        AppId { primary: canonical_path, binary_hash }
    }

    /// Digest of a binary's contents, as stored in `binary_hash`.
    fn compute_hash(contents: &Vec<u8>) -> (r: String)
        ensures
            r@ == content_digest(contents@),
    {
        let digest = sha256_digest(contents);
        hex_encode(&digest)
    }

    /// Whether the recorded digest still matches the binary's current
    /// contents.  Trivially true when no digest was recorded.  Callers that
    /// need a strong guarantee must re-read the file and re-verify at each
    /// privileged action rather than cache this answer.
    pub fn verify_hash(&self, contents: &Vec<u8>) -> (r: bool)
        ensures
            r == match self.binary_hash {
                Option::Some(h) => h@ == content_digest(contents@),
                Option::None => true,
            },
    {
        match &self.binary_hash {
            Some(expected) => {
                let actual = Self::compute_hash(contents);
                *expected == actual
            },
            None => true,
        }
    }

    /// The name shown for this application in a prompt.
    pub fn display_name(&self) -> (r: &str)
        ensures
            r@ == self.primary@,
    {
        self.primary.as_str()
    }
}

impl Clone for AppId {
    fn clone(&self) -> (r: Self)
        ensures
            r == *self,
    {
        AppId {
            primary: self.primary.clone(),
            binary_hash: match &self.binary_hash {
                Some(h) => Some(h.clone()),
                None => None,
            },
        }
    }
}

impl PartialEq for AppId {
    fn eq(&self, other: &Self) -> (r: bool) {
        let hash_eq = match (&self.binary_hash, &other.binary_hash) {
            (Some(a), Some(b)) => *a == *b,
            (None, None) => true,
            _ => false,
        };
        self.primary == other.primary && hash_eq
    }
}

impl vstd::std_specs::cmp::PartialEqSpecImpl for AppId {
    open spec fn obeys_eq_spec() -> bool {
        true
    }

    open spec fn eq_spec(&self, other: &Self) -> bool {
        app_id_eq(self, other)
    }
}

impl Eq for AppId {}

} // verus!
