use vstd::prelude::*;

use crate::model::{AccessToken, Session, StorageBackend, Timestamp};
use crate::pkce::{constant_time_eq, Pkce};
use crate::token::{is_fresh_token, TokenType};

verus! {

/// A single-use grant artifact carrying the client's PKCE challenge.
#[derive(Debug, Clone, PartialEq, Eq)]
pub struct AuthorizationCode<T: StorageBackend> {
    pub data: T::AuthorizationCodeData,
    pub code: String,
    pub pkce: Pkce,
}

impl<T: StorageBackend> AuthorizationCode<T> {
    /// Mints a code with a fresh, unguessable value.
    pub fn generate(data: T::AuthorizationCodeData, pkce: Pkce) -> (r: Self)
        ensures
            is_fresh_token(TokenType::AuthorizationCode, r.code@),
            r.pkce == pkce,
            r.data == data,
    {
        AuthorizationCode { data, code: TokenType::AuthorizationCode.generate(), pkce }
    }
}

/// Where one grant stands.
#[derive(Clone, Copy, Debug, PartialEq, Eq, Structural)]
pub enum GrantState {
    Requested,
    Authorized,
    Exchanged,
    Denied,
    Expired,
    Revoked,
}

/// Why a grant operation was refused.
#[derive(Clone, Copy, Debug, PartialEq, Eq, Structural)]
pub enum GrantError {
    /// The operation does not apply in the grant's current state.
    InvalidState,
    /// The code is unknown, expired, already used, or the verifier does not
    /// answer its challenge; callers are not told which.
    InvalidGrant,
}

/// One authorization grant: its session and, once authorized, its code.
pub struct Grant<T: StorageBackend> {
    session: Session<T>,
    code: Option<AuthorizationCode<T>>,
    code_expires_at: Timestamp,
    state: GrantState,
}

/// A code holder's attempt: the code presented, the verifier and the time.
pub type Attempt = (Seq<char>, Seq<char>, int);

impl<T: StorageBackend> Grant<T> {
    pub closed spec fn session(&self) -> Session<T> {
        self.session
    }

    pub closed spec fn code(&self) -> Option<AuthorizationCode<T>> {
        self.code
    }

    pub closed spec fn code_expires_at(&self) -> int {
        self.code_expires_at as int
    }

    pub closed spec fn state(&self) -> GrantState {
        self.state
    }

    /// A code is held exactly in the states reached through authorization.
    pub open spec fn wf(&self) -> bool {
        self.code().is_some() <==> (self.state() == GrantState::Authorized
            || self.state() == GrantState::Exchanged || self.state() == GrantState::Expired
            || self.state() == GrantState::Revoked)
    }

    /// Whether `code` is this grant's pending code.
    pub open spec fn presents(&self, code: Seq<char>) -> bool {
        self.state() == GrantState::Authorized && self.code().is_some()
            && self.code().unwrap().code@ == code
    }

    /// Whether an exchange with these values mints a token.
    pub open spec fn exchange_succeeds(&self, code: Seq<char>, verifier: Seq<char>, now: int) -> bool {
        self.presents(code) && now < self.code_expires_at()
            && self.code().unwrap().pkce.accepts(verifier)
    }

    /// The state an exchange with these values leaves the grant in.
    pub open spec fn state_after_exchange(&self, code: Seq<char>, verifier: Seq<char>, now: int) -> GrantState {
        if !self.presents(code) {
            self.state()
        } else if now >= self.code_expires_at() {
            GrantState::Expired
        } else if !self.code().unwrap().pkce.accepts(verifier) {
            GrantState::Revoked
        } else {
            GrantState::Exchanged
        }
    }

    /// The grant after an exchange with these values.
    pub closed spec fn after_exchange(&self, code: Seq<char>, verifier: Seq<char>, now: int) -> Self {
        Grant { state: self.state_after_exchange(code, verifier, now), ..*self }
    }

    /// An exchange changes the state alone.
    pub proof fn lemma_after_exchange(&self, code: Seq<char>, verifier: Seq<char>, now: int)
        ensures
            self.after_exchange(code, verifier, now).state() == self.state_after_exchange(code, verifier, now),
            self.after_exchange(code, verifier, now).session() == self.session(),
            self.after_exchange(code, verifier, now).code() == self.code(),
            self.after_exchange(code, verifier, now).code_expires_at() == self.code_expires_at(),
            self.wf() ==> self.after_exchange(code, verifier, now).wf(),
    {
    }

    /// A grant requested for `session`, not yet authorized.
    pub fn request(session: Session<T>) -> (r: Self)
        ensures
            r.wf(),
            r.state() == GrantState::Requested,
            r.session() == session,
            r.code().is_none(),
    {
        Grant { session, code: None, code_expires_at: 0, state: GrantState::Requested }
    }

    pub fn current_state(&self) -> (r: GrantState)
        ensures
            r == self.state(),
    {
        self.state
    }

    pub fn session_ref(&self) -> (r: &Session<T>)
        ensures
            *r == self.session(),
    {
        &self.session
    }

    /// Issues `code`, valid until `expires_at`, to a requested grant.
    pub fn authorize(&mut self, code: AuthorizationCode<T>, expires_at: Timestamp) -> (r: Result<(), GrantError>)
        requires
            old(self).wf(),
        ensures
            final(self).wf(),
            final(self).session() == old(self).session(),
            r.is_ok() == (old(self).state() == GrantState::Requested),
            r.is_ok() ==> final(self).state() == GrantState::Authorized
                && final(self).code() == Some(code)
                && final(self).code_expires_at() == expires_at as int,
            r.is_err() ==> *final(self) == *old(self) && r == Err::<(), GrantError>(GrantError::InvalidState),
    {
        match self.state {
            GrantState::Requested => {
                self.code = Some(code);
                self.code_expires_at = expires_at;
                self.state = GrantState::Authorized;
                Ok(())
            },
            _ => Err(GrantError::InvalidState),
        }
    }

    /// The end user declined a requested grant.
    pub fn deny(&mut self) -> (r: Result<(), GrantError>)
        requires
            old(self).wf(),
        ensures
            final(self).wf(),
            final(self).session() == old(self).session(),
            final(self).code() == old(self).code(),
            r.is_ok() == (old(self).state() == GrantState::Requested),
            r.is_ok() ==> final(self).state() == GrantState::Denied,
            r.is_err() ==> *final(self) == *old(self) && r == Err::<(), GrantError>(GrantError::InvalidState),
    {
        match self.state {
            GrantState::Requested => {
                self.state = GrantState::Denied;
                Ok(())
            },
            _ => Err(GrantError::InvalidState),
        }
    }

    /// Withdraws the pending code of an authorized grant.
    pub fn revoke(&mut self) -> (r: Result<(), GrantError>)
        requires
            old(self).wf(),
        ensures
            final(self).wf(),
            final(self).session() == old(self).session(),
            final(self).code() == old(self).code(),
            r.is_ok() == (old(self).state() == GrantState::Authorized),
            r.is_ok() ==> final(self).state() == GrantState::Revoked,
            r.is_err() ==> *final(self) == *old(self) && r == Err::<(), GrantError>(GrantError::InvalidState),
    {
        match self.state {
            GrantState::Authorized => {
                self.state = GrantState::Revoked;
                Ok(())
            },
            _ => Err(GrantError::InvalidState),
        }
    }

    /// Exchanges `code` with `verifier` at `now` for an access token with the
    /// given identifier, secret and lifetime. In one step it checks that the
    /// code is this grant's pending code and unexpired and that the verifier
    /// answers its challenge, and consumes the code: a failed check ends the
    /// code for good, and a used code never succeeds again.
    pub fn exchange_with(
        &mut self,
        code: &str,
        verifier: &str,
        now: Timestamp,
        jti: String,
        token: String,
        expires_after: i64,
        data: T::AccessTokenData,
    ) -> (r: Result<AccessToken<T>, GrantError>)
        requires
            old(self).wf(),
        ensures
            *final(self) == old(self).after_exchange(code@, verifier@, now as int),
            final(self).wf(),
            final(self).state() == old(self).state_after_exchange(code@, verifier@, now as int),
            final(self).session() == old(self).session(),
            final(self).code() == old(self).code(),
            r.is_ok() == old(self).exchange_succeeds(code@, verifier@, now as int),
            r matches Ok(t) ==> t.jti == jti && t.token == token && t.expires_after == expires_after
                && t.created_at == now && t.data == data,
            r.is_err() ==> r == Err::<AccessToken<T>, GrantError>(GrantError::InvalidGrant),
    {
        let ghost before = *self;
        if self.state != GrantState::Authorized {
            return Err(GrantError::InvalidGrant);
        }
        let matches_code = match &self.code {
            Some(c) => constant_time_eq(c.code.as_str(), code),
            None => false,
        };
        if !matches_code {
            return Err(GrantError::InvalidGrant);
        }
        if now >= self.code_expires_at {
            self.state = GrantState::Expired;
            return Err(GrantError::InvalidGrant);
        }
        let accepted = match &self.code {
            Some(c) => c.pkce.verify(verifier),
            None => false,
        };
        if !accepted {
            self.state = GrantState::Revoked;
            return Err(GrantError::InvalidGrant);
        }
        self.state = GrantState::Exchanged;
        Ok(AccessToken { data, jti, token, expires_after, created_at: now })
    }

    /// Exchanges `code` as `exchange_with` does, with a freshly drawn token
    /// identifier and secret.
    pub fn exchange(
        &mut self,
        code: &str,
        verifier: &str,
        now: Timestamp,
        expires_after: i64,
        data: T::AccessTokenData,
    ) -> (r: Result<AccessToken<T>, GrantError>)
        requires
            old(self).wf(),
        ensures
            *final(self) == old(self).after_exchange(code@, verifier@, now as int),
            final(self).wf(),
            final(self).state() == old(self).state_after_exchange(code@, verifier@, now as int),
            final(self).session() == old(self).session(),
            r.is_ok() == old(self).exchange_succeeds(code@, verifier@, now as int),
            r matches Ok(t) ==> is_fresh_token(TokenType::TokenId, t.jti@)
                && is_fresh_token(TokenType::AccessToken, t.token@)
                && t.expires_after == expires_after && t.created_at == now && t.data == data,
            r.is_err() ==> r == Err::<AccessToken<T>, GrantError>(GrantError::InvalidGrant),
    {
        let jti = TokenType::TokenId.generate();
        let token = TokenType::AccessToken.generate();
        self.exchange_with(code, verifier, now, jti, token, expires_after, data)
    }
}

/// The grant after a series of exchange attempts, applied one after another
/// as the store serializes concurrent ones.
pub open spec fn run_attempts<T: StorageBackend>(g: Grant<T>, attempts: Seq<Attempt>) -> Grant<T>
    decreases attempts.len(),
{
    if attempts.len() == 0 {
        g
    } else {
        let a = attempts[0];
        run_attempts(g.after_exchange(a.0, a.1, a.2), attempts.drop_first())
    }
}

/// How many of a series of exchange attempts mint a token.
pub open spec fn successes<T: StorageBackend>(g: Grant<T>, attempts: Seq<Attempt>) -> nat
    decreases attempts.len(),
{
    if attempts.len() == 0 {
        0
    } else {
        let a = attempts[0];
        (if g.exchange_succeeds(a.0, a.1, a.2) { 1nat } else { 0nat })
            + successes(g.after_exchange(a.0, a.1, a.2), attempts.drop_first())
    }
}

/// A grant that is not authorized mints no token, whatever is attempted.
pub proof fn lemma_no_success_unless_authorized<T: StorageBackend>(g: Grant<T>, attempts: Seq<Attempt>)
    requires
        g.state() != GrantState::Authorized,
    ensures
        successes(g, attempts) == 0,
    decreases attempts.len(),
{
    if attempts.len() > 0 {
        let a = attempts[0];
        g.lemma_after_exchange(a.0, a.1, a.2);
        lemma_no_success_unless_authorized(g.after_exchange(a.0, a.1, a.2), attempts.drop_first());
    }
}

/// Once a code has been exchanged, every later exchange of it fails, with
/// the same verifier or another, at any time.
pub proof fn lemma_code_single_use<T: StorageBackend>(
    g: Grant<T>,
    code: Seq<char>,
    verifier: Seq<char>,
    now: int,
    code2: Seq<char>,
    verifier2: Seq<char>,
    now2: int,
)
    requires
        g.exchange_succeeds(code, verifier, now),
    ensures
        g.after_exchange(code, verifier, now).state() == GrantState::Exchanged,
        !g.after_exchange(code, verifier, now).exchange_succeeds(code2, verifier2, now2),
{
    g.lemma_after_exchange(code, verifier, now);
}

/// Of any series of exchange attempts on one grant, at most one mints a token.
pub proof fn lemma_at_most_one_success<T: StorageBackend>(g: Grant<T>, attempts: Seq<Attempt>)
    ensures
        successes(g, attempts) <= 1,
    decreases attempts.len(),
{
    if attempts.len() > 0 {
        let a = attempts[0];
        let next = g.after_exchange(a.0, a.1, a.2);
        g.lemma_after_exchange(a.0, a.1, a.2);
        if g.exchange_succeeds(a.0, a.1, a.2) {
            lemma_no_success_unless_authorized(next, attempts.drop_first());
        } else {
            lemma_at_most_one_success(next, attempts.drop_first());
        }
    }
}

/// Of one or more attempts that each present the pending code, unexpired,
/// with a matching verifier, exactly one mints a token.
pub proof fn lemma_exactly_one_success<T: StorageBackend>(g: Grant<T>, attempts: Seq<Attempt>)
    requires
        attempts.len() > 0,
        g.state() == GrantState::Authorized,
        forall|i: int| 0 <= i < attempts.len() ==> {
            let a = #[trigger] attempts[i];
            g.code().is_some() && g.code().unwrap().code@ == a.0
                && g.code().unwrap().pkce.accepts(a.1) && a.2 < g.code_expires_at()
        },
    ensures
        successes(g, attempts) == 1,
{
    let a = attempts[0];
    assert(g.exchange_succeeds(a.0, a.1, a.2));
    g.lemma_after_exchange(a.0, a.1, a.2);
    lemma_no_success_unless_authorized(g.after_exchange(a.0, a.1, a.2), attempts.drop_first());
}

/// Exchanges never change the session, so its scope read after any series of
/// exchanges is the scope the tokens were issued against.
pub proof fn lemma_scope_fixed<T: StorageBackend>(g: Grant<T>, attempts: Seq<Attempt>)
    ensures
        run_attempts(g, attempts).session() == g.session(),
        run_attempts(g, attempts).session().scope@ == g.session().scope@,
    decreases attempts.len(),
{
    if attempts.len() > 0 {
        let a = attempts[0];
        g.lemma_after_exchange(a.0, a.1, a.2);
        lemma_scope_fixed(g.after_exchange(a.0, a.1, a.2), attempts.drop_first());
    }
}

} // verus!
