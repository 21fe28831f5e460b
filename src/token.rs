use vstd::prelude::*;
use vstd::string::*;

verus! {

/// Number of random characters in a token's payload: 30 characters of a
/// 62-letter alphabet carry more than 128 bits of entropy.
pub const TOKEN_PAYLOAD_LEN: usize = 30;

/// Number of random characters in a device identifier.
pub const DEVICE_ID_LEN: usize = 10;

/// An ASCII letter or digit.
pub open spec fn is_alphanumeric(c: char) -> bool {
    ('a' <= c && c <= 'z') || ('A' <= c && c <= 'Z') || ('0' <= c && c <= '9')
}

/// `s` has `len` characters, each an ASCII letter or digit.
pub open spec fn is_random_payload(s: Seq<char>, len: nat) -> bool {
    s.len() == len && forall|i: int| 0 <= i < s.len() ==> is_alphanumeric(#[trigger] s[i])
}

/// Relies on rand's `Alphanumeric` distribution (through `DistString::sample_string`
/// on the thread-local generator): `len` characters drawn from A-Z, a-z and 0-9.
#[verifier::external_body]
fn random_alphanumeric(len: usize) -> (r: String)
    ensures
        is_random_payload(r@, len as nat),
{
    rand::distributions::DistString::sample_string(&rand::distributions::Alphanumeric, &mut rand::thread_rng(), len)
}

/// The kinds of secrets and identifiers that are issued.
#[derive(Clone, Copy, Debug, PartialEq, Eq, Structural)]
pub enum TokenType {
    AccessToken,
    AuthorizationCode,
    TokenId,
    CompatAccessToken,
}

/// The prefix that marks a token of a kind.
pub open spec fn prefix_of(kind: TokenType) -> Seq<char> {
    match kind {
        TokenType::AccessToken => "mat_"@,
        TokenType::AuthorizationCode => "mac_"@,
        TokenType::TokenId => "mti_"@,
        TokenType::CompatAccessToken => "mct_"@,
    }
}

/// `t` is a token of `kind` with the given payload.
pub open spec fn is_token_of(kind: TokenType, t: Seq<char>, payload: Seq<char>) -> bool {
    t == prefix_of(kind) + payload
}

/// `t` is a well-formed token of `kind`: its prefix followed by a random payload.
pub open spec fn is_fresh_token(kind: TokenType, t: Seq<char>) -> bool {
    exists|payload: Seq<char>| is_token_of(kind, t, payload) && is_random_payload(payload, TOKEN_PAYLOAD_LEN as nat)
}

impl TokenType {
    /// The prefix of this kind.
    pub fn prefix(&self) -> (r: &'static str)
        ensures
            r@ == prefix_of(*self),
            r@.len() == 4,
    {
        proof {
            reveal_strlit("mat_");
            reveal_strlit("mac_");
            reveal_strlit("mti_");
            reveal_strlit("mct_");
        }
        match self {
            TokenType::AccessToken => "mat_",
            TokenType::AuthorizationCode => "mac_",
            TokenType::TokenId => "mti_",
            TokenType::CompatAccessToken => "mct_",
        }
    }

    /// Builds a token of this kind around a payload.
    pub fn with_payload(&self, payload: &str) -> (r: String)
        ensures
            is_token_of(*self, r@, payload@),
    {
        let t = String::from_str(self.prefix());
        t.concat(payload)
    }

    /// Draws a fresh token of this kind.
    pub fn generate(&self) -> (r: String)
        ensures
            is_fresh_token(*self, r@),
    {
        let payload = random_alphanumeric(TOKEN_PAYLOAD_LEN);
        let r = self.with_payload(payload.as_str());
        assert(is_token_of(*self, r@, payload@));
        r
    }
}

/// The kind of a token, read from its prefix alone.
pub open spec fn kind_of(t: Seq<char>) -> Option<TokenType> {
    if t.len() >= 4 && t.subrange(0, 4) == prefix_of(TokenType::AccessToken) {
        Some(TokenType::AccessToken)
    } else if t.len() >= 4 && t.subrange(0, 4) == prefix_of(TokenType::AuthorizationCode) {
        Some(TokenType::AuthorizationCode)
    } else if t.len() >= 4 && t.subrange(0, 4) == prefix_of(TokenType::TokenId) {
        Some(TokenType::TokenId)
    } else if t.len() >= 4 && t.subrange(0, 4) == prefix_of(TokenType::CompatAccessToken) {
        Some(TokenType::CompatAccessToken)
    } else {
        None
    }
}

/// Whether `t` begins with `p`.
fn starts_with(t: &str, p: &str) -> (r: bool)
    ensures
        r == (p@.len() <= t@.len() && t@.subrange(0, p@.len() as int) == p@),
{
    let n = p.unicode_len();
    if n > t.unicode_len() {
        return false;
    }
    let mut i: usize = 0;
    while i < n
        invariant
            n == p@.len(),
            n <= t@.len(),
            i <= n,
            forall|j: int| 0 <= j < i ==> t@[j] == p@[j],
        decreases n - i,
    {
        if t.get_char(i) != p.get_char(i) {
            assert(t@.subrange(0, n as int)[i as int] != p@[i as int]);
            return false;
        }
        i += 1;
    }
    assert(t@.subrange(0, n as int) =~= p@);
    true
}

/// Tells the kind of a token from its prefix, without any lookup.
pub fn classify(t: &str) -> (r: Option<TokenType>)
    ensures
        r == kind_of(t@),
{
    proof {
        reveal_strlit("mat_");
        reveal_strlit("mac_");
        reveal_strlit("mti_");
        reveal_strlit("mct_");
    }
    if starts_with(t, "mat_") {
        Some(TokenType::AccessToken)
    } else if starts_with(t, "mac_") {
        Some(TokenType::AuthorizationCode)
    } else if starts_with(t, "mti_") {
        Some(TokenType::TokenId)
    } else if starts_with(t, "mct_") {
        Some(TokenType::CompatAccessToken)
    } else {
        None
    }
}

/// A token of a kind is classified as that kind.
pub proof fn lemma_classify_token(kind: TokenType, t: Seq<char>, payload: Seq<char>)
    requires
        is_token_of(kind, t, payload),
    ensures
        kind_of(t) == Some(kind),
{
    reveal_strlit("mat_");
    reveal_strlit("mac_");
    reveal_strlit("mti_");
    reveal_strlit("mct_");
    assert(t.subrange(0, 4) =~= prefix_of(kind));
    assert(prefix_of(TokenType::AccessToken)[2] == 't');
    assert(prefix_of(TokenType::AuthorizationCode)[2] == 'c');
    assert(prefix_of(TokenType::TokenId)[2] == 'i');
    assert(prefix_of(TokenType::CompatAccessToken)[1] == 'c');
    assert(prefix_of(TokenType::AccessToken)[1] == 'a');
    assert(prefix_of(TokenType::AuthorizationCode)[1] == 'a');
    assert(prefix_of(TokenType::TokenId)[1] == 't');
}

/// Tokens of two different kinds never coincide, whatever their payloads.
pub proof fn lemma_kinds_disjoint(k1: TokenType, k2: TokenType, t1: Seq<char>, p1: Seq<char>, t2: Seq<char>, p2: Seq<char>)
    requires
        k1 != k2,
        is_token_of(k1, t1, p1),
        is_token_of(k2, t2, p2),
    ensures
        t1 != t2,
{
    lemma_classify_token(k1, t1, p1);
    lemma_classify_token(k2, t2, p2);
}

/// An identifier of a legacy client device.
#[derive(Debug, Clone, PartialEq, Eq)]
pub struct Device {
    id: String,
}

impl Device {
    pub closed spec fn id(&self) -> Seq<char> {
        self.id@
    }

    /// Draws a fresh device identifier.
    pub fn generate() -> (r: Device)
        ensures
            is_random_payload(r.id(), DEVICE_ID_LEN as nat),
    {
        Device { id: random_alphanumeric(DEVICE_ID_LEN) }
    }

    /// A device with a known identifier.
    pub fn from_id(id: String) -> (r: Device)
        ensures
            r.id() == id@,
    {
        Device { id }
    }

    pub fn as_str(&self) -> (r: &str)
        ensures
            r@ == self.id(),
    {
        self.id.as_str()
    }

    pub fn duplicate(&self) -> (r: Device)
        ensures
            r.id() == self.id(),
    {
        Device { id: self.id.clone() }
    }
}

} // verus!
