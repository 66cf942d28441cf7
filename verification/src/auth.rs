//! API-key authentication.

use vstd::prelude::*;
use vstd::string::StringSliceAdditionalSpecFns;

verus! {

broadcast use vstd::utf8::encode_utf8_decode_utf8;

/// Authentication configuration: either no authentication, or one API key
/// that every request must present.
#[derive(Clone, Debug)]
pub struct AuthConfig {
    api_key: Option<String>,
}

impl View for AuthConfig {
    type V = Option<Seq<char>>;

    /// The expected key, if authentication is on.
    closed spec fn view(&self) -> Option<Seq<char>> {
        match self.api_key {
            Some(k) => Some(k@),
            None => None,
        }
    }
}

/// Whether a request presenting `provided` passes the configuration `expected`.
pub open spec fn key_accepted(expected: Option<Seq<char>>, provided: Seq<char>) -> bool {
    match expected {
        Some(k) => k == provided,
        None => true,
    }
}

impl AuthConfig {
    /// Authentication with the API key `api_key`.
    pub fn with_api_key(api_key: &str) -> (c: Self)
        ensures
            c@ == Some(api_key@),
    {
        AuthConfig { api_key: Some(api_key.to_owned()) }
    }

    /// No authentication.
    pub fn disabled() -> (c: Self)
        ensures
            c@ is None,
    {
        AuthConfig { api_key: None }
    }

    /// Whether requests must present a key.
    pub fn requires_auth(&self) -> (r: bool)
        ensures
            r == self@ is Some,
    {
        self.api_key.is_some()
    }

    /// Whether `provided_key` is accepted: always when authentication is off,
    /// else exactly when it equals the configured key (compared in constant time).
    pub fn validate_api_key(&self, provided_key: &str) -> (r: bool)
        ensures
            r == key_accepted(self@, provided_key@),
    {
        match &self.api_key {
            Some(expected) => constant_time_eq(expected.as_str(), provided_key),
            None => true,
        }
    }

    /// The displayed form, which never shows the key: "ApiKey(*****)" or "Disabled".
    pub fn display_string(&self) -> (s: String)
        ensures
            s@ == (if self@ is Some { "ApiKey(*****)"@ } else { "Disabled"@ }),
    {
        match &self.api_key {
            Some(_) => "ApiKey(*****)".to_owned(),
            None => "Disabled".to_owned(),
        }
    }
}

impl Default for AuthConfig {
    /// No authentication.
    fn default() -> (c: Self)
        ensures
            c@ is None,
    {
        Self::disabled()
    }
}

/// Compares two strings byte by byte without stopping at the first
/// difference (only the lengths are compared first). True exactly when the
/// strings are equal.
pub fn constant_time_eq(a: &str, b: &str) -> (r: bool)
    ensures
        r == (a@ == b@),
{
    let ab = a.as_bytes();
    let bb = b.as_bytes();
    proof {
        assert(a@ == b@ <==> a.spec_bytes() == b.spec_bytes()) by {
            assert(vstd::utf8::decode_utf8(vstd::utf8::encode_utf8(a@)) == a@);
            assert(vstd::utf8::decode_utf8(vstd::utf8::encode_utf8(b@)) == b@);
        }
    }
    if ab.len() != bb.len() {
        return false;
    }
    let mut result: u8 = 0;
    let mut i: usize = 0;
    while i < ab.len()
        invariant
            i <= ab@.len(),
            ab@.len() == bb@.len(),
            (result == 0) <==> (forall|j: int| 0 <= j < i ==> ab@[j] == bb@[j]),
        decreases ab@.len() - i,
    {
        let x = ab[i];
        let y = bb[i];
        let next = result | (x ^ y);
        assert((next == 0) <==> (result == 0 && x == y)) by (bit_vector)
            requires
                next == result | (x ^ y),
        ;
        proof {
            if next == 0 {
                assert forall|j: int| 0 <= j < i + 1 implies ab@[j] == bb@[j] by {
                    if j < i {
                    }
                }
            }
        }
        result = next;
        i = i + 1;
    }
    proof {
        assert(result == 0 <==> ab@ == bb@) by {
            if result == 0 {
                assert(ab@ =~= bb@);
            }
        }
    }
    result == 0
}

/// The API key carried by a header value: the value itself.
pub fn extract_api_key(header_value: Option<&str>) -> (r: Option<&str>)
    ensures
        r == header_value,
{
    header_value
}

} // verus!
