//! Identity and credential core: entity model, PKCE verification, token
//! generation, the authorization-code exchange state machine and the
//! password-login bridge for legacy clients.
pub mod model;
pub mod compat;
pub mod emails;
pub mod grant;
pub mod pkce;
pub mod registry;
pub mod token;
