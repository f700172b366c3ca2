//! Identities, permissions and sessions.
pub mod discovery;
pub mod grants;
pub mod identity;
pub mod login_laws;
pub mod middleware;
pub mod oauth2;
pub mod permission_laws;
pub mod permissions;
pub mod request_laws;
pub mod token;
pub mod token_endpoint;
