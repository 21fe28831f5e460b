use vstd::prelude::*;
use vstd::string::*;

use crate::model::{CompatAccessToken, CompatSession, StorageBackend};
use crate::registry::IssuedTokens;
use crate::token::{is_fresh_token, is_random_payload, Device, TokenType, DEVICE_ID_LEN};

verus! {

/// A login method offered to legacy clients.
#[derive(Clone, Copy, Debug, PartialEq, Eq, Structural)]
pub enum LoginType {
    Password,
}

/// The login methods offered to legacy clients: password login alone.
pub fn supported_login_types() -> (r: Vec<LoginType>)
    ensures
        r@ == seq![LoginType::Password],
{
    vec![LoginType::Password]
}

/// Who is logging in.
#[derive(Debug)]
pub enum Identifier {
    User { user: String },
    Unsupported,
}

/// A legacy login request.
#[derive(Debug)]
pub enum RequestBody {
    Password { identifier: Identifier, password: String },
    Unsupported,
}

/// Why a legacy login was refused.
#[derive(Debug)]
pub enum RouteError {
    /// A storage or other internal failure, with its description.
    Internal(String),
    /// The login method or identifier kind is not supported.
    Unsupported,
    /// The username or password is wrong; which of the two is not told.
    LoginFailed,
}

/// What a refused login answers: an error code, a message and an HTTP status.
#[derive(Debug)]
pub struct ErrorResponse {
    pub errcode: String,
    pub error: String,
    pub status: u16,
}

impl RouteError {
    /// The answer to a refused login.
    pub fn into_response(self) -> (r: ErrorResponse)
        ensures
            self is Internal ==> r.status == 500 && r.errcode@ == "M_UNKNOWN"@
                && r.error@ == "Internal server error"@,
            self is Unsupported ==> r.status == 400 && r.errcode@ == "M_UNRECOGNIZED"@
                && r.error@ == "Invalid login type"@,
            self is LoginFailed ==> r.status == 403 && r.errcode@ == "M_UNAUTHORIZED"@
                && r.error@ == "Invalid username/password"@,
    {
        match self {
            RouteError::Internal(_) => ErrorResponse {
                errcode: String::from_str("M_UNKNOWN"),
                error: String::from_str("Internal server error"),
                status: 500,
            },
            RouteError::Unsupported => ErrorResponse {
                errcode: String::from_str("M_UNRECOGNIZED"),
                error: String::from_str("Invalid login type"),
                status: 400,
            },
            RouteError::LoginFailed => ErrorResponse {
                errcode: String::from_str("M_UNAUTHORIZED"),
                error: String::from_str("Invalid username/password"),
                status: 403,
            },
        }
    }
}

/// The username and password of a supported request.
pub fn credentials(input: RequestBody) -> (r: Result<(String, String), RouteError>)
    ensures
        match input {
            RequestBody::Password { identifier: Identifier::User { user }, password } =>
                r matches Ok((u, p)) && u == user && p == password,
            _ => r matches Err(RouteError::Unsupported),
        },
{
    match input {
        RequestBody::Password { identifier: Identifier::User { user }, password } => Ok((user, password)),
        _ => Err(RouteError::Unsupported),
    }
}

/// What a legacy login hands to the storage for password verification: the
/// credentials, and the device and token to record if they are right.
#[derive(Debug)]
pub struct LoginAttempt {
    pub username: String,
    pub password: String,
    pub device: Device,
    pub token: String,
}

/// Reads a legacy login request and draws the device and compat access token
/// it will create if the password is right.
pub fn prepare_login(input: RequestBody) -> (r: Result<LoginAttempt, RouteError>)
    ensures
        match input {
            RequestBody::Password { identifier: Identifier::User { user }, password } =>
                r matches Ok(a) && a.username == user && a.password == password
                    && is_fresh_token(TokenType::CompatAccessToken, a.token@)
                    && is_random_payload(a.device.id(), DEVICE_ID_LEN as nat),
            _ => r matches Err(RouteError::Unsupported),
        },
{
    let (username, password) = match credentials(input) {
        Ok(c) => c,
        Err(e) => return Err(e),
    };
    let token = TokenType::CompatAccessToken.generate();
    let device = Device::generate();
    Ok(LoginAttempt { username, password, device, token })
}

/// Some value of the shape of a drawn compat access token is recorded in `tokens`.
pub open spec fn holds_token_shape(tokens: Seq<Seq<char>>) -> bool {
    exists|i: int| 0 <= i < tokens.len() && is_fresh_token(TokenType::CompatAccessToken, #[trigger] tokens[i])
}

/// Some value of the shape of a drawn device identifier is recorded in `devices`.
pub open spec fn holds_device_shape(devices: Seq<Seq<char>>) -> bool {
    exists|i: int| 0 <= i < devices.len() && is_random_payload(#[trigger] devices[i], DEVICE_ID_LEN as nat)
}

/// Checks that the token and device identifier of a login attempt were not
/// issued before. Nothing is recorded: that happens only once the storage
/// has completed the login.
pub fn check_login_values(
    attempt: LoginAttempt,
    tokens: &IssuedTokens,
    devices: &IssuedTokens,
) -> (r: Result<LoginAttempt, RouteError>)
    ensures
        r.is_ok() == (!tokens@.contains(attempt.token@) && !devices@.contains(attempt.device.id())),
        r matches Ok(a) ==> a.username == attempt.username && a.password == attempt.password
            && a.token == attempt.token && a.device.id() == attempt.device.id(),
        r.is_err() ==> (r matches Err(RouteError::Internal(_))),
{
    if tokens.contains(attempt.token.as_str()) {
        return Err(RouteError::Internal(String::from_str("access token already issued")));
    }
    if devices.contains(attempt.device.as_str()) {
        return Err(RouteError::Internal(String::from_str("device identifier already issued")));
    }
    Ok(attempt)
}

/// Reads a legacy login request and draws its device and token, making sure
/// neither was issued before. The records are only read.
pub fn issue_login(
    input: RequestBody,
    tokens: &IssuedTokens,
    devices: &IssuedTokens,
) -> (r: Result<LoginAttempt, RouteError>)
    ensures
        r matches Ok(a) ==> is_fresh_token(TokenType::CompatAccessToken, a.token@)
            && is_random_payload(a.device.id(), DEVICE_ID_LEN as nat)
            && !tokens@.contains(a.token@) && !devices@.contains(a.device.id()),
        r matches Err(RouteError::Internal(_)) ==> holds_token_shape(tokens@) || holds_device_shape(devices@),
        match input {
            RequestBody::Password { identifier: Identifier::User { user }, password } =>
                (r matches Ok(a) ==> a.username == user && a.password == password)
                    && (r.is_err() ==> (r matches Err(RouteError::Internal(_))))
                    && (!holds_token_shape(tokens@) && !holds_device_shape(devices@) ==> r.is_ok()),
            _ => r matches Err(RouteError::Unsupported),
        },
{
    match prepare_login(input) {
        Ok(a) => {
            let r = check_login_values(a, tokens, devices);
            proof {
                if r.is_err() {
                    if tokens@.contains(a.token@) {
                        let i = choose|i: int| 0 <= i < tokens@.len() && tokens@[i] == a.token@;
                        assert(is_fresh_token(TokenType::CompatAccessToken, tokens@[i]));
                    } else {
                        let i = choose|i: int| 0 <= i < devices@.len() && devices@[i] == a.device.id();
                        assert(is_random_payload(devices@[i], DEVICE_ID_LEN as nat));
                    }
                }
            }
            r
        },
        Err(e) => Err(e),
    }
}

/// The user identifier that legacy clients see: `@username:homeserver`.
pub open spec fn user_id_of(username: Seq<char>, homeserver: Seq<char>) -> Seq<char> {
    "@"@ + username + ":"@ + homeserver
}

/// Composes the user identifier of `username` on `homeserver`.
pub fn user_id(username: &str, homeserver: &str) -> (r: String)
    ensures
        r@ == user_id_of(username@, homeserver@),
{
    proof {
        reveal_strlit("@");
        reveal_strlit(":");
    }
    let r = String::from_str("@");
    let r = r.concat(username);
    let r = r.concat(":");
    r.concat(homeserver)
}

/// What a successful legacy login answers.
#[derive(Debug)]
pub struct ResponseBody {
    pub access_token: String,
    pub device_id: Device,
    pub user_id: String,
}

/// Why the storage did not complete a login attempt.
#[derive(Debug)]
pub enum LoginFailure {
    /// The username is unknown or the password is wrong.
    BadCredentials,
    /// The storage itself failed (connectivity, a constraint), with its description.
    Storage(String),
}

/// Turns the storage's answer to a login attempt into the login's answer.
/// On success it gives the token, the device and the user identifier, and
/// records the token and device identifier as issued. Wrong credentials give
/// `LoginFailed` and a storage failure comes back unchanged as `Internal`;
/// a failed login records nothing. A value that was issued meanwhile is
/// refused as `Internal`, and nothing is recorded.
pub fn complete_login<T: StorageBackend>(
    outcome: Result<(CompatAccessToken<T>, CompatSession<T>), LoginFailure>,
    homeserver: &str,
    tokens: &mut IssuedTokens,
    devices: &mut IssuedTokens,
) -> (r: Result<ResponseBody, RouteError>)
    requires
        old(tokens).wf(),
        old(devices).wf(),
    ensures
        final(tokens).wf(),
        final(devices).wf(),
        r.is_err() ==> final(tokens)@ == old(tokens)@ && final(devices)@ == old(devices)@,
        match outcome {
            Ok((token, session)) =>
                if !old(tokens)@.contains(token.token@) && !old(devices)@.contains(session.device.id()) {
                    r matches Ok(b) && b.access_token == token.token
                        && b.device_id.id() == session.device.id()
                        && b.user_id@ == user_id_of(session.user.username@, homeserver@)
                        && final(tokens)@ == old(tokens)@.push(token.token@)
                        && final(devices)@ == old(devices)@.push(session.device.id())
                } else {
                    r matches Err(RouteError::Internal(_))
                },
            Err(LoginFailure::BadCredentials) => r matches Err(RouteError::LoginFailed),
            Err(LoginFailure::Storage(m)) => r matches Err(RouteError::Internal(e)) && e == m,
        },
{
    match outcome {
        Ok((token, session)) => {
            if tokens.contains(token.token.as_str()) {
                return Err(RouteError::Internal(String::from_str("access token already issued")));
            }
            if devices.contains(session.device.as_str()) {
                return Err(RouteError::Internal(String::from_str("device identifier already issued")));
            }
            let _ = tokens.record(token.token.clone());
            let _ = devices.record(String::from_str(session.device.as_str()));
            let uid = user_id(session.user.username.as_str(), homeserver);
            Ok(ResponseBody { access_token: token.token, device_id: session.device, user_id: uid })
        },
        Err(LoginFailure::BadCredentials) => Err(RouteError::LoginFailed),
        Err(LoginFailure::Storage(m)) => Err(RouteError::Internal(m)),
    }
}

} // verus!
