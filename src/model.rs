use vstd::prelude::*;
use vstd::string::*;
use crate::token::Device;

verus! {

/// What a storage backend attaches to each entity: opaque data that the
/// domain logic only carries, compares and clones.
pub trait StorageBackend {
    type UserData: Clone + core::fmt::Debug + PartialEq;
    type AuthenticationData: Clone + core::fmt::Debug + PartialEq;
    type BrowserSessionData: Clone + core::fmt::Debug + PartialEq;
    type ClientData: Clone + core::fmt::Debug + PartialEq;
    type SessionData: Clone + core::fmt::Debug + PartialEq;
    type AuthorizationCodeData: Clone + core::fmt::Debug + PartialEq;
    type AccessTokenData: Clone + core::fmt::Debug + PartialEq;
    type CompatSessionData: Clone + core::fmt::Debug + PartialEq;
    type CompatAccessTokenData: Clone + core::fmt::Debug + PartialEq;
}

/// A point in time, in whole seconds since the Unix epoch.
pub type Timestamp = i64;

/// A registered account.
#[derive(Debug, Clone, PartialEq)]
pub struct User<T: StorageBackend> {
    pub data: T::UserData,
    pub username: String,
    pub sub: String,
}

impl<T: StorageBackend> User<T> where T::UserData: Default {
    /// Fixture accounts for tests and local development.
    pub fn samples() -> (r: Vec<Self>)
        ensures
            r@.len() == 1,
            r@[0].username@ == "john"@,
            r@[0].sub@ == "123-456"@,
    {
        let user = User { data: T::UserData::default(), username: String::from_str("john"), sub: String::from_str("123-456") };
        proof {
            reveal_strlit("john");
            reveal_strlit("123-456");
        }
        vec![user]
    }
}

/// One successful credential check.
#[derive(Debug, Clone, PartialEq)]
pub struct Authentication<T: StorageBackend> {
    pub data: T::AuthenticationData,
    pub created_at: Timestamp,
}

/// An interactive login session of a user.
#[derive(Debug, Clone, PartialEq)]
pub struct BrowserSession<T: StorageBackend> {
    pub data: T::BrowserSessionData,
    pub user: User<T>,
    pub created_at: Timestamp,
    pub last_authentication: Option<Authentication<T>>,
}

/// Relies on chrono::Utc::now and DateTime::timestamp: the current time in
/// seconds; nothing is promised of its value.
#[verifier::external_body]
fn now_timestamp() -> (r: Timestamp) {
    chrono::Utc::now().timestamp()
}

impl<T: StorageBackend> BrowserSession<T> where T::BrowserSessionData: Default, T::UserData: Default {
    /// Fixture sessions, one per fixture user, created at `created_at` and
    /// not yet authenticated.
    pub fn samples_at(created_at: Timestamp) -> (r: Vec<Self>)
        ensures
            r@.len() == 1,
            r@[0].user.username@ == "john"@,
            r@[0].user.sub@ == "123-456"@,
            r@[0].created_at == created_at,
            r@[0].last_authentication.is_none(),
    {
        let mut users = User::<T>::samples();
        let mut out: Vec<Self> = Vec::new();
        while users.len() > 0
            invariant
                out@.len() + users@.len() == 1,
                users@.len() == 1 ==> users@[0].username@ == "john"@ && users@[0].sub@ == "123-456"@,
                out@.len() == 1 ==> out@[0].user.username@ == "john"@ && out@[0].user.sub@ == "123-456"@
                    && out@[0].created_at == created_at && out@[0].last_authentication.is_none(),
            decreases users@.len(),
        {
            let user = users.remove(0);
            out.push(BrowserSession { data: T::BrowserSessionData::default(), user, created_at, last_authentication: None });
        }
        out
    }

    /// Fixture sessions created now.
    pub fn samples() -> (r: Vec<Self>)
        ensures
            r@.len() == 1,
            r@[0].user.username@ == "john"@,
            r@[0].user.sub@ == "123-456"@,
            r@[0].last_authentication.is_none(),
    {
        BrowserSession::<T>::samples_at(now_timestamp())
    }
}

impl<T: StorageBackend> BrowserSession<T> {
    /// Records a fresh credential check as the session's latest one; earlier
    /// checks are kept by the storage, never changed.
    pub fn authenticate(&mut self, authentication: Authentication<T>)
        ensures
            final(self).last_authentication == Some(authentication),
            final(self).user == old(self).user,
            final(self).data == old(self).data,
            final(self).created_at == old(self).created_at,
    {
        self.last_authentication = Some(authentication);
    }
}

/// A registered OAuth client application.
#[derive(Debug, Clone, PartialEq)]
pub struct Client<T: StorageBackend> {
    pub data: T::ClientData,
    pub client_id: String,
}

/// A set of permissions, held as distinct scope tokens.
#[derive(Debug, Clone, PartialEq, Eq)]
pub struct Scope {
    tokens: Vec<String>,
}

impl View for Scope {
    type V = Set<Seq<char>>;

    closed spec fn view(&self) -> Set<Seq<char>> {
        Set::new(|t: Seq<char>| exists|i: int| 0 <= i < self.tokens@.len() && self.tokens@[i]@ == t)
    }
}

impl Scope {
    /// The empty scope.
    pub fn new() -> (r: Scope)
        ensures
            r@ == Set::<Seq<char>>::empty(),
    {
        let r = Scope { tokens: Vec::new() };
        assert(r@ =~= Set::<Seq<char>>::empty());
        r
    }

    /// Whether the scope holds `token`.
    pub fn contains(&self, token: &str) -> (r: bool)
        ensures
            r == self@.contains(token@),
    {
        let wanted = String::from_str(token);
        let mut i: usize = 0;
        while i < self.tokens.len()
            invariant
                wanted@ == token@,
                i <= self.tokens@.len(),
                forall|j: int| 0 <= j < i ==> self.tokens@[j]@ != token@,
            decreases self.tokens@.len() - i,
        {
            if self.tokens[i] == wanted {
                assert(self@.contains(token@));
                return true;
            }
            i += 1;
        }
        false
    }

    /// Adds `token` to the scope.
    pub fn insert(&mut self, token: String)
        ensures
            final(self)@ == old(self)@.insert(token@),
    {
        if !self.contains(token.as_str()) {
            let ghost before = self.tokens@;
            let ghost old_set = self@;
            let ghost tv = token@;
            self.tokens.push(token);
            assert forall|t: Seq<char>| #[trigger] self@.contains(t) == old_set.insert(tv).contains(t) by {
                if old_set.contains(t) {
                    let i = choose|i: int| 0 <= i < before.len() && before[i]@ == t;
                    assert(self.tokens@[i] == before[i]);
                }
                if t == tv {
                    assert(self.tokens@[before.len() as int]@ == t);
                }
                if self@.contains(t) && t != tv {
                    let i = choose|i: int| 0 <= i < self.tokens@.len() && self.tokens@[i]@ == t;
                    assert(i < before.len());
                    assert(before[i] == self.tokens@[i]);
                }
            }
            assert(self@ =~= old_set.insert(tv));
        } else {
            assert(self@.insert(token@) =~= self@);
        }
    }
}

/// One authorization grant context: a client, the requested scope and, for
/// interactive grants, the browser session it was requested from.
#[derive(Debug, Clone, PartialEq)]
pub struct Session<T: StorageBackend> {
    pub data: T::SessionData,
    pub browser_session: Option<BrowserSession<T>>,
    pub client: Client<T>,
    pub scope: Scope,
}

/// Whether a credential created at `created_at` and lasting `expires_after`
/// seconds is still valid at `now`.
pub open spec fn valid_at(created_at: int, expires_after: int, now: int) -> bool {
    now < created_at + expires_after
}

fn still_valid(created_at: Timestamp, expires_after: i64, now: Timestamp) -> (r: bool)
    ensures
        r == valid_at(created_at as int, expires_after as int, now as int),
{
    (now as i128) < (created_at as i128) + (expires_after as i128)
}

/// A bearer credential issued against a session.
#[derive(Debug, Clone, PartialEq, Eq)]
pub struct AccessToken<T: StorageBackend> {
    pub data: T::AccessTokenData,
    pub jti: String,
    pub token: String,
    pub expires_after: i64,
    pub created_at: Timestamp,
}

impl<T: StorageBackend> AccessToken<T> {
    /// Whether the token is still valid at `now`.
    pub fn is_valid_at(&self, now: Timestamp) -> (r: bool)
        ensures
            r == valid_at(self.created_at as int, self.expires_after as int, now as int),
    {
        still_valid(self.created_at, self.expires_after, now)
    }
}

/// A session of a legacy client that logged in with a password.
#[derive(Debug, Clone, PartialEq)]
pub struct CompatSession<T: StorageBackend> {
    pub data: T::CompatSessionData,
    pub user: User<T>,
    pub device: Device,
}

/// A bearer credential of a legacy session.
#[derive(Debug, Clone, PartialEq)]
pub struct CompatAccessToken<T: StorageBackend> {
    pub data: T::CompatAccessTokenData,
    pub jti: String,
    pub token: String,
    pub expires_after: i64,
    pub created_at: Timestamp,
}

impl<T: StorageBackend> CompatAccessToken<T> {
    /// Whether the token is still valid at `now`.
    pub fn is_valid_at(&self, now: Timestamp) -> (r: bool)
        ensures
            r == valid_at(self.created_at as int, self.expires_after as int, now as int),
    {
        still_valid(self.created_at, self.expires_after, now)
    }
}

/// A token with a positive lifetime is valid when created and until the end
/// of its lifetime, and invalid from then on.
pub proof fn lemma_expiry_monotone(created_at: int, expires_after: int, eps: int)
    requires
        expires_after > 0,
        eps > 0,
    ensures
        valid_at(created_at, expires_after, created_at),
        valid_at(created_at, expires_after, created_at + expires_after - eps),
        !valid_at(created_at, expires_after, created_at + expires_after + eps),
        !valid_at(created_at, expires_after, created_at + expires_after),
{
}

/// Validity only ends: a token invalid at some time stays invalid later.
pub proof fn lemma_expiry_final(created_at: int, expires_after: int, t1: int, t2: int)
    requires
        t1 <= t2,
        !valid_at(created_at, expires_after, t1),
    ensures
        !valid_at(created_at, expires_after, t2),
{
}

} // verus!
