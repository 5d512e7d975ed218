//! Authentication and authorization core of a small catalog service.
//!
//! An inbound request carries an opaque bearer token in its authorization
//! header.  The credential extractor parses that header; the authentication
//! guard resolves the token through the session store and the user directory
//! to an identity; the authorization guard then checks that identity's roles
//! for an elevated privilege.  Every decision in that chain is verified.

pub mod credentials;
pub mod guards;
pub mod models;
pub mod repository;
pub mod responder;
pub mod session;
