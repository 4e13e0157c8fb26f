//! Web authentication for an HTTP API.
//!
//! Requests are authenticated by API tokens, by a legacy single key, or by the
//! session cookie of a password login; where none of these is set up, only the
//! machine itself is served. [`web_auth`] holds the pieces, [`middleware`] what
//! is done to every request.
//!
//! Every decision here is a function of plain values. Whatever depends on the
//! clock comes in two forms: one that takes the clock's reading, whose contract
//! says exactly what comes out, and one that reads the clock and calls it.

pub mod client_ip;
pub mod clock;
pub mod config;
pub mod extract;
pub mod headers;
pub mod json;
pub mod login_limiter;
pub mod middleware;
pub mod outside;
pub mod passwords;
pub mod random;
pub mod responses;
pub mod routes;
pub mod sessions;
pub mod text;
pub mod tokens;
pub mod uri;
pub mod web_auth;
