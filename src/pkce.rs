use vstd::prelude::*;
use vstd::utf8::*;

verus! {

/// The SHA-256 digest of a byte string.
pub uninterp spec fn sha256_of(data: Seq<u8>) -> Seq<u8>;

/// The URL-safe base64 encoding of a byte string, without padding.
pub uninterp spec fn base64url_of(data: Seq<u8>) -> Seq<char>;

/// Relies on sha2's `Sha256::digest`: the 32-byte SHA-256 digest of `data`.
#[verifier::external_body]
fn sha256(data: &[u8]) -> (r: Vec<u8>)
    ensures
        r@ == sha256_of(data@),
        r@.len() == 32,
{
    <sha2::Sha256 as sha2::Digest>::digest(data).to_vec()
}

/// Relies on base64's `encode_config` with `URL_SAFE_NO_PAD`: the URL-safe
/// encoding of `data`, without padding.
#[verifier::external_body]
fn base64url(data: &[u8]) -> (r: String)
    ensures
        r@ == base64url_of(data@),
{
    base64::encode_config(data, base64::URL_SAFE_NO_PAD)
}

/// The S256 challenge that corresponds to a verifier: the URL-safe, unpadded
/// base64 encoding of the SHA-256 digest of its UTF-8 bytes.
pub open spec fn s256_of(verifier: Seq<char>) -> Seq<char> {
    base64url_of(sha256_of(encode_utf8(verifier)))
}

/// Computes the S256 challenge of a verifier.
pub fn s256_challenge(verifier: &str) -> (r: String)
    ensures
        r@ == s256_of(verifier@),
{
    let digest = sha256(verifier.as_bytes());
    base64url(digest.as_slice())
}

/// Compares two strings byte by byte, reading every byte of equal-length
/// inputs whatever their contents, so the time taken does not reveal where
/// they first differ.
pub fn constant_time_eq(a: &str, b: &str) -> (r: bool)
    ensures
        r == (a@ == b@),
{
    let x = a.as_bytes();
    let y = b.as_bytes();
    proof {
        encode_utf8_decode_utf8(a@);
        encode_utf8_decode_utf8(b@);
    }
    if x.len() != y.len() {
        return false;
    }
    let mut same = true;
    let mut i: usize = 0;
    while i < x.len()
        invariant
            x@.len() == y@.len(),
            i <= x@.len(),
            same == (forall|j: int| 0 <= j < i ==> x@[j] == y@[j]),
        decreases x@.len() - i,
    {
        if x[i] != y[i] {
            same = false;
        }
        i += 1;
    }
    if same {
        assert(x@ =~= y@);
    } else {
        assert(x@ != y@) by {
            let j = choose|j: int| 0 <= j < x@.len() && !(x@[j] == y@[j]);
            assert(x@[j] != y@[j]);
        }
    }
    same
}

/// How a PKCE challenge is derived from its verifier.
#[derive(Clone, Copy, Debug, PartialEq, Eq, Structural)]
pub enum CodeChallengeMethod {
    Plain,
    S256,
}

/// Whether `verifier` answers `challenge` under `method`.
pub open spec fn pkce_accepts(method: CodeChallengeMethod, challenge: Seq<char>, verifier: Seq<char>) -> bool {
    match method {
        CodeChallengeMethod::Plain => challenge == verifier,
        CodeChallengeMethod::S256 => challenge == s256_of(verifier),
    }
}

impl CodeChallengeMethod {
    /// Checks `verifier` against `challenge` in constant time.
    pub fn verify(&self, challenge: &str, verifier: &str) -> (r: bool)
        ensures
            r == pkce_accepts(*self, challenge@, verifier@),
    {
        match self {
            CodeChallengeMethod::Plain => constant_time_eq(challenge, verifier),
            CodeChallengeMethod::S256 => {
                let computed = s256_challenge(verifier);
                constant_time_eq(challenge, computed.as_str())
            },
        }
    }
}

/// A PKCE challenge: a method and the challenge string, fixed at creation.
#[derive(Debug, Clone, PartialEq, Eq)]
pub struct Pkce {
    challenge_method: CodeChallengeMethod,
    challenge: String,
}

impl Pkce {
    pub closed spec fn method(&self) -> CodeChallengeMethod {
        self.challenge_method
    }

    pub closed spec fn challenge(&self) -> Seq<char> {
        self.challenge@
    }

    /// Whether `verifier` answers this challenge.
    pub open spec fn accepts(&self, verifier: Seq<char>) -> bool {
        pkce_accepts(self.method(), self.challenge(), verifier)
    }

    pub fn new(challenge_method: CodeChallengeMethod, challenge: String) -> (r: Self)
        ensures
            r.method() == challenge_method,
            r.challenge() == challenge@,
    {
        Pkce { challenge_method, challenge }
    }

    pub fn challenge_method(&self) -> (r: CodeChallengeMethod)
        ensures
            r == self.method(),
    {
        self.challenge_method
    }

    pub fn challenge_str(&self) -> (r: &str)
        ensures
            r@ == self.challenge(),
    {
        self.challenge.as_str()
    }

    pub fn verify(&self, verifier: &str) -> (r: bool)
        ensures
            r == self.accepts(verifier@),
    {
        self.challenge_method.verify(self.challenge.as_str(), verifier)
    }
}

/// A challenge made from a verifier with S256 accepts that verifier, and
/// accepts another verifier exactly when the two have the same S256 challenge.
pub proof fn lemma_s256_round_trip(v: Seq<char>, other: Seq<char>, p: Pkce)
    requires
        p.method() == CodeChallengeMethod::S256,
        p.challenge() == s256_of(v),
    ensures
        p.accepts(v),
        p.accepts(other) == (s256_of(other) == s256_of(v)),
{
}

/// A plain challenge accepts a verifier exactly when the two are equal.
pub proof fn lemma_plain_exact(p: Pkce, v: Seq<char>)
    requires
        p.method() == CodeChallengeMethod::Plain,
    ensures
        p.accepts(v) == (p.challenge() == v),
{
}

} // verus!
