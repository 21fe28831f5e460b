use mas_core::compat::{
    complete_login, credentials, check_login_values, issue_login, prepare_login, LoginFailure, supported_login_types, user_id, Identifier,
    LoginType, RequestBody, RouteError,
};
use mas_core::emails::{plan_email_action, EmailAction, EmailForm, EmailFormError};
use mas_core::grant::{AuthorizationCode, Grant, GrantError, GrantState};
use mas_core::model::{
    AccessToken, Authentication, BrowserSession, Client, CompatAccessToken, CompatSession, Scope, Session,
    StorageBackend, User,
};
use mas_core::pkce::{constant_time_eq, s256_challenge, CodeChallengeMethod, Pkce};
use mas_core::registry::{DuplicateToken, IssuedTokens};
use mas_core::token::{classify, Device, TokenType};

struct Memory;

impl StorageBackend for Memory {
    type UserData = ();
    type AuthenticationData = ();
    type BrowserSessionData = ();
    type ClientData = ();
    type SessionData = ();
    type AuthorizationCodeData = ();
    type AccessTokenData = ();
    type CompatSessionData = ();
    type CompatAccessTokenData = ();
}

const RFC_VERIFIER: &str = "dBjftJeZ4CVP-mB92K27uhbUJU1p1r_wW1gFWFOEjXk";
const RFC_CHALLENGE: &str = "E9Melhoa2OwvFrEMTJguCHaoeK1t8URWbuGJSstw-cM";

fn is_alnum(s: &str) -> bool {
    s.chars().all(|c| c.is_ascii_alphanumeric())
}

fn session() -> Session<Memory> {
    let mut scope = Scope::new();
    scope.insert("openid".to_string());
    scope.insert("email".to_string());
    Session {
        data: (),
        browser_session: None,
        client: Client { data: (), client_id: "client".to_string() },
        scope,
    }
}

fn authorized_grant(method: CodeChallengeMethod, challenge: &str) -> (Grant<Memory>, String) {
    let mut grant = Grant::request(session());
    let code = AuthorizationCode::<Memory>::generate((), Pkce::new(method, challenge.to_string()));
    let value = code.code.clone();
    assert_eq!(grant.authorize(code, 1_000), Ok(()));
    (grant, value)
}

#[test]
fn user_samples() {
    let users = User::<Memory>::samples();
    assert_eq!(users.len(), 1);
    assert_eq!(users[0].username, "john");
    assert_eq!(users[0].sub, "123-456");
}

#[test]
fn browser_session_samples() {
    let sessions = BrowserSession::<Memory>::samples_at(42);
    assert_eq!(sessions.len(), 1);
    assert_eq!(sessions[0].user.username, "john");
    assert_eq!(sessions[0].created_at, 42);
    assert!(sessions[0].last_authentication.is_none());
    let now = BrowserSession::<Memory>::samples();
    assert_eq!(now.len(), 1);
    assert!(now[0].created_at > 1_600_000_000);
}

#[test]
fn s256_known_vector() {
    assert_eq!(s256_challenge(RFC_VERIFIER), RFC_CHALLENGE);
    let pkce = Pkce::new(CodeChallengeMethod::S256, RFC_CHALLENGE.to_string());
    assert!(pkce.verify(RFC_VERIFIER));
    assert!(!pkce.verify(RFC_CHALLENGE));
    assert!(!pkce.verify("dBjftJeZ4CVP-mB92K27uhbUJU1p1r_wW1gFWFOEjXK"));
}

#[test]
fn s256_round_trip() {
    for v in ["a", "verifier-with-some-length-0123456789", ""] {
        let pkce = Pkce::new(CodeChallengeMethod::S256, s256_challenge(v));
        assert!(pkce.verify(v));
        assert!(!pkce.verify("other"));
    }
}

#[test]
fn plain_verification() {
    let pkce = Pkce::new(CodeChallengeMethod::Plain, "abc".to_string());
    assert!(pkce.verify("abc"));
    assert!(!pkce.verify("abd"));
    assert!(!pkce.verify("ab"));
    assert!(!pkce.verify(""));
    assert_eq!(pkce.challenge_method(), CodeChallengeMethod::Plain);
    assert_eq!(pkce.challenge_str(), "abc");
    assert!(CodeChallengeMethod::Plain.verify("x", "x"));
}

#[test]
fn constant_time_comparison() {
    assert!(constant_time_eq("", ""));
    assert!(constant_time_eq("héllo", "héllo"));
    assert!(!constant_time_eq("hello", "hellp"));
    assert!(!constant_time_eq("hello", "hell"));
}

#[test]
fn token_format() {
    let t = TokenType::CompatAccessToken.generate();
    assert_eq!(t.len(), 34);
    assert!(t.starts_with("mct_"));
    assert!(is_alnum(&t[4..]));
    assert_eq!(TokenType::AccessToken.prefix(), "mat_");
    assert_eq!(TokenType::AuthorizationCode.prefix(), "mac_");
    assert_eq!(TokenType::TokenId.prefix(), "mti_");
    assert_eq!(TokenType::AccessToken.with_payload("xyz"), "mat_xyz");
}

#[test]
fn token_classification() {
    assert_eq!(classify("mat_abc"), Some(TokenType::AccessToken));
    assert_eq!(classify("mac_"), Some(TokenType::AuthorizationCode));
    assert_eq!(classify("mti_1"), Some(TokenType::TokenId));
    assert_eq!(classify("mct_x"), Some(TokenType::CompatAccessToken));
    assert_eq!(classify("mat"), None);
    assert_eq!(classify("xyz_abc"), None);
    for kind in [TokenType::AccessToken, TokenType::AuthorizationCode, TokenType::TokenId, TokenType::CompatAccessToken] {
        assert_eq!(classify(&kind.generate()), Some(kind));
    }
}

#[test]
fn tokens_of_one_kind_are_distinct() {
    let mut issued = IssuedTokens::new();
    for _ in 0..100 {
        assert_eq!(issued.record(TokenType::AccessToken.generate()), Ok(()));
    }
    assert_eq!(issued.len(), 100);
}

#[test]
fn registry_refuses_duplicates() {
    let mut issued = IssuedTokens::new();
    assert_eq!(issued.record("mat_a".to_string()), Ok(()));
    assert_eq!(issued.record("mat_b".to_string()), Ok(()));
    assert_eq!(issued.record("mat_a".to_string()), Err(DuplicateToken));
    assert_eq!(issued.len(), 2);
    assert!(issued.contains("mat_b"));
    assert!(!issued.contains("mat_c"));
}

#[test]
fn device_generation() {
    let d = Device::generate();
    assert_eq!(d.as_str().len(), 10);
    assert!(is_alnum(d.as_str()));
    assert_eq!(Device::from_id("ABC".to_string()).duplicate().as_str(), "ABC");
}

#[test]
fn scope_set_semantics() {
    let mut scope = Scope::new();
    assert!(!scope.contains("openid"));
    scope.insert("openid".to_string());
    scope.insert("openid".to_string());
    assert!(scope.contains("openid"));
    assert!(!scope.contains("email"));
}

#[test]
fn access_token_expiry() {
    let t = AccessToken::<Memory> {
        data: (),
        jti: "mti_1".to_string(),
        token: "mat_1".to_string(),
        expires_after: 300,
        created_at: 1_000,
    };
    assert!(t.is_valid_at(1_000));
    assert!(t.is_valid_at(1_299));
    assert!(!t.is_valid_at(1_300));
    assert!(!t.is_valid_at(1_301));
    assert!(t.is_valid_at(0));
    let extreme = AccessToken::<Memory> { expires_after: i64::MAX, created_at: i64::MAX, ..t };
    assert!(extreme.is_valid_at(i64::MAX));
}

#[test]
fn compat_token_expiry() {
    let t = CompatAccessToken::<Memory> { data: (), jti: "mti_1".to_string(), token: "mct_1".to_string(), expires_after: 10, created_at: 5 };
    assert!(t.is_valid_at(14));
    assert!(!t.is_valid_at(15));
}

#[test]
fn exchange_once() {
    let (mut grant, code) = authorized_grant(CodeChallengeMethod::S256, RFC_CHALLENGE);
    assert!(code.starts_with("mac_"));
    let token = grant.exchange(&code, RFC_VERIFIER, 500, 3600, ()).unwrap();
    assert!(token.token.starts_with("mat_"));
    assert!(token.jti.starts_with("mti_"));
    assert_eq!(token.created_at, 500);
    assert_eq!(token.expires_after, 3600);
    assert_eq!(grant.current_state(), GrantState::Exchanged);
    assert_eq!(grant.exchange(&code, RFC_VERIFIER, 501, 3600, ()).err(), Some(GrantError::InvalidGrant));
    assert_eq!(grant.exchange(&code, "other", 501, 3600, ()).err(), Some(GrantError::InvalidGrant));
    assert_eq!(grant.current_state(), GrantState::Exchanged);
}

#[test]
fn exchange_with_given_values() {
    let (mut grant, code) = authorized_grant(CodeChallengeMethod::Plain, "secret");
    let token = grant
        .exchange_with(&code, "secret", 10, "mti_j".to_string(), "mat_t".to_string(), 60, ())
        .unwrap();
    assert_eq!(token.jti, "mti_j");
    assert_eq!(token.token, "mat_t");
    assert_eq!(token.created_at, 10);
    assert!(grant.session_ref().scope.contains("openid"));
    assert!(grant.session_ref().scope.contains("email"));
}

#[test]
fn exchange_expired_code() {
    let (mut grant, code) = authorized_grant(CodeChallengeMethod::Plain, "secret");
    assert_eq!(grant.exchange(&code, "secret", 1_000, 60, ()).err(), Some(GrantError::InvalidGrant));
    assert_eq!(grant.current_state(), GrantState::Expired);
    assert_eq!(grant.exchange(&code, "secret", 10, 60, ()).err(), Some(GrantError::InvalidGrant));
}

#[test]
fn exchange_wrong_verifier() {
    let (mut grant, code) = authorized_grant(CodeChallengeMethod::Plain, "secret");
    assert_eq!(grant.exchange(&code, "guess", 10, 60, ()).err(), Some(GrantError::InvalidGrant));
    assert_eq!(grant.current_state(), GrantState::Revoked);
    assert_eq!(grant.exchange(&code, "secret", 10, 60, ()).err(), Some(GrantError::InvalidGrant));
}

#[test]
fn exchange_unknown_code() {
    let (mut grant, code) = authorized_grant(CodeChallengeMethod::Plain, "secret");
    assert_eq!(grant.exchange("mac_unknown", "secret", 10, 60, ()).err(), Some(GrantError::InvalidGrant));
    assert_eq!(grant.current_state(), GrantState::Authorized);
    assert!(grant.exchange(&code, "secret", 10, 60, ()).is_ok());
}

#[test]
fn grant_transitions() {
    let mut grant = Grant::<Memory>::request(session());
    assert_eq!(grant.current_state(), GrantState::Requested);
    assert_eq!(grant.exchange("mac_x", "v", 0, 60, ()).err(), Some(GrantError::InvalidGrant));
    assert_eq!(grant.revoke(), Err(GrantError::InvalidState));
    assert_eq!(grant.deny(), Ok(()));
    assert_eq!(grant.current_state(), GrantState::Denied);
    assert_eq!(grant.deny(), Err(GrantError::InvalidState));
    let code = AuthorizationCode::<Memory>::generate((), Pkce::new(CodeChallengeMethod::Plain, "c".to_string()));
    assert_eq!(grant.authorize(code, 10), Err(GrantError::InvalidState));

    let (mut grant, code) = authorized_grant(CodeChallengeMethod::Plain, "secret");
    assert_eq!(grant.revoke(), Ok(()));
    assert_eq!(grant.current_state(), GrantState::Revoked);
    assert_eq!(grant.exchange(&code, "secret", 10, 60, ()).err(), Some(GrantError::InvalidGrant));
}

fn password_request(user: &str, password: &str) -> RequestBody {
    RequestBody::Password {
        identifier: Identifier::User { user: user.to_string() },
        password: password.to_string(),
    }
}

fn john() -> User<Memory> {
    User { data: (), username: "john".to_string(), sub: "123-456".to_string() }
}

#[test]
fn login_types() {
    assert_eq!(supported_login_types(), vec![LoginType::Password]);
}

#[test]
fn login_request_decoding() {
    let (u, p) = credentials(password_request("john", "hunter2")).unwrap();
    assert_eq!(u, "john");
    assert_eq!(p, "hunter2");
    assert!(matches!(credentials(RequestBody::Unsupported), Err(RouteError::Unsupported)));
    let other = RequestBody::Password { identifier: Identifier::Unsupported, password: "x".to_string() };
    assert!(matches!(credentials(other), Err(RouteError::Unsupported)));
}

#[test]
fn login_preparation() {
    let attempt = prepare_login(password_request("john", "hunter2")).unwrap();
    assert_eq!(attempt.username, "john");
    assert_eq!(attempt.password, "hunter2");
    assert!(attempt.token.starts_with("mct_"));
    assert_eq!(attempt.token.len(), 34);
    assert_eq!(attempt.device.as_str().len(), 10);
    assert!(matches!(prepare_login(RequestBody::Unsupported), Err(RouteError::Unsupported)));
}

#[test]
fn compat_login_success() {
    let attempt = prepare_login(password_request("john", "correct")).unwrap();
    let device_id = attempt.device.as_str().to_string();
    let token = CompatAccessToken::<Memory> { data: (), jti: "mti_1".to_string(), token: attempt.token.clone(), expires_after: 300, created_at: 0 };
    let session = CompatSession::<Memory> { data: (), user: john(), device: attempt.device };
    let outcome: Result<_, LoginFailure> = Ok((token, session));
    let (mut tokens, mut devices) = (IssuedTokens::new(), IssuedTokens::new());
    let body = complete_login(outcome, "example.com", &mut tokens, &mut devices).unwrap();
    assert!(tokens.contains(&attempt.token));
    assert!(devices.contains(&device_id));
    assert_eq!(body.user_id, "@john:example.com");
    assert_eq!(body.access_token, attempt.token);
    assert_eq!(body.device_id.as_str(), device_id);
}

#[test]
fn compat_login_failure() {
    let outcome: Result<(CompatAccessToken<Memory>, CompatSession<Memory>), LoginFailure> = Err(LoginFailure::BadCredentials);
    let (mut tokens, mut devices) = (IssuedTokens::new(), IssuedTokens::new());
    let err = complete_login(outcome, "example.com", &mut tokens, &mut devices).err().unwrap();
    assert!(matches!(err, RouteError::LoginFailed));
    assert_eq!((tokens.len(), devices.len()), (0, 0));
    let response = err.into_response();
    assert_eq!(response.status, 403);
    assert_eq!(response.errcode, "M_UNAUTHORIZED");
    assert_eq!(response.error, "Invalid username/password");
}

#[test]
fn error_responses() {
    let r = RouteError::Unsupported.into_response();
    assert_eq!((r.status, r.errcode.as_str(), r.error.as_str()), (400, "M_UNRECOGNIZED", "Invalid login type"));
    let r = RouteError::Internal("db down".to_string()).into_response();
    assert_eq!((r.status, r.errcode.as_str(), r.error.as_str()), (500, "M_UNKNOWN", "Internal server error"));
}

#[test]
fn user_id_composition() {
    assert_eq!(user_id("john", "matrix.org"), "@john:matrix.org");
    assert_eq!(user_id("", ""), "@:");
}

#[test]
fn email_form_planning() {
    let add = plan_email_action(EmailForm::Add { email: "a@b.c".to_string() }).unwrap();
    assert!(matches!(add, EmailAction::Add { email } if email == "a@b.c"));
    let rm = plan_email_action(EmailForm::Remove { data: "42".to_string() }).unwrap();
    assert!(matches!(rm, EmailAction::Remove { id: 42 }));
    let sp = plan_email_action(EmailForm::SetPrimary { data: "-7".to_string() }).unwrap();
    assert!(matches!(sp, EmailAction::SetPrimary { id: -7 }));
    let rs = plan_email_action(EmailForm::ResendConfirmation { data: "+9223372036854775807".to_string() }).unwrap();
    assert!(matches!(rs, EmailAction::ResendConfirmation { id: i64::MAX }));
    let low = plan_email_action(EmailForm::Remove { data: "-9223372036854775808".to_string() }).unwrap();
    assert!(matches!(low, EmailAction::Remove { id: i64::MIN }));
    let zero = plan_email_action(EmailForm::Remove { data: "-007".to_string() }).unwrap();
    assert!(matches!(zero, EmailAction::Remove { id: -7 }));
    for bad in ["", "-", "+", "12a", " 1", "1 ", "+-1", "9223372036854775808", "-9223372036854775809", "99999999999999999999"] {
        let r = plan_email_action(EmailForm::Remove { data: bad.to_string() });
        assert!(matches!(r, Err(EmailFormError::InvalidId)));
    }
}

#[test]
fn browser_session_authentication() {
    let mut s = BrowserSession::<Memory>::samples_at(5).remove(0);
    s.authenticate(Authentication { data: (), created_at: 10 });
    assert_eq!(s.last_authentication.as_ref().map(|a| a.created_at), Some(10));
    s.authenticate(Authentication { data: (), created_at: 20 });
    assert_eq!(s.last_authentication.as_ref().map(|a| a.created_at), Some(20));
    assert_eq!(s.created_at, 5);
}

#[test]
fn compat_login_storage_failure() {
    let outcome: Result<(CompatAccessToken<Memory>, CompatSession<Memory>), LoginFailure> =
        Err(LoginFailure::Storage("connection refused".to_string()));
    let (mut tokens, mut devices) = (IssuedTokens::new(), IssuedTokens::new());
    let err = complete_login(outcome, "example.com", &mut tokens, &mut devices).err().unwrap();
    assert!(matches!(&err, RouteError::Internal(m) if m == "connection refused"));
    assert_eq!((tokens.len(), devices.len()), (0, 0));
    assert_eq!(err.into_response().status, 500);
}

fn succeed(attempt: mas_core::compat::LoginAttempt) -> Result<(CompatAccessToken<Memory>, CompatSession<Memory>), LoginFailure> {
    let token = CompatAccessToken::<Memory> { data: (), jti: "mti_1".to_string(), token: attempt.token, expires_after: 300, created_at: 0 };
    Ok((token, CompatSession::<Memory> { data: (), user: john(), device: attempt.device }))
}

fn attempt(token: &str, device: &str) -> mas_core::compat::LoginAttempt {
    mas_core::compat::LoginAttempt {
        username: "john".to_string(),
        password: "pw".to_string(),
        device: Device::from_id(device.to_string()),
        token: token.to_string(),
    }
}

#[test]
fn login_values_are_recorded_on_success_only() {
    let mut tokens = IssuedTokens::new();
    let mut devices = IssuedTokens::new();
    let first = issue_login(password_request("john", "pw"), &tokens, &devices).unwrap();
    assert_eq!((tokens.len(), devices.len()), (0, 0));
    let first_token = first.token.clone();
    let first_device = first.device.as_str().to_string();
    complete_login(succeed(first), "hs", &mut tokens, &mut devices).unwrap();
    assert!(tokens.contains(&first_token));
    assert!(devices.contains(&first_device));

    let second = issue_login(password_request("john", "bad"), &tokens, &devices).unwrap();
    assert_ne!(first_token, second.token);
    assert_ne!(first_device, second.device.as_str());
    let failed: Result<(CompatAccessToken<Memory>, CompatSession<Memory>), LoginFailure> = Err(LoginFailure::BadCredentials);
    assert!(matches!(complete_login(failed, "hs", &mut tokens, &mut devices), Err(RouteError::LoginFailed)));
    assert!(!tokens.contains(&second.token));
    assert_eq!((tokens.len(), devices.len()), (1, 1));
    assert!(matches!(issue_login(RequestBody::Unsupported, &tokens, &devices), Err(RouteError::Unsupported)));
}

#[test]
fn repeated_login_values_are_refused() {
    let mut tokens = IssuedTokens::new();
    let mut devices = IssuedTokens::new();
    assert!(complete_login(succeed(attempt("mct_a", "DEV1")), "hs", &mut tokens, &mut devices).is_ok());
    assert!(check_login_values(attempt("mct_b", "DEV2"), &tokens, &devices).is_ok());
    assert!(matches!(check_login_values(attempt("mct_a", "DEV2"), &tokens, &devices), Err(RouteError::Internal(_))));
    assert!(matches!(check_login_values(attempt("mct_b", "DEV1"), &tokens, &devices), Err(RouteError::Internal(_))));
    let again = complete_login(succeed(attempt("mct_a", "DEV2")), "hs", &mut tokens, &mut devices);
    assert!(matches!(again, Err(RouteError::Internal(_))));
    let same_device = complete_login(succeed(attempt("mct_b", "DEV1")), "hs", &mut tokens, &mut devices);
    assert!(matches!(same_device, Err(RouteError::Internal(_))));
    assert_eq!((tokens.len(), devices.len()), (1, 1));
    assert!(!devices.contains("DEV2"));
}
