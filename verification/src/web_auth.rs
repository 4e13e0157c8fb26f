//! Web authentication: API tokens, password login and session management.

pub use crate::client_ip::{
    choose_client_ip, extract_client_ip, proxy_texts, read_proxy_ips, IpAddr, ProxyIps, ProxyTexts,
};
pub use crate::config::{effective_auth_mode, WebAuthConfig, WebAuthMode, WebAuthToken};
pub use crate::extract::{
    extract_api_key_header, extract_bearer_token, extract_query_token, extract_session_cookie,
    SESSION_COOKIE,
};
pub use crate::login_limiter::LoginRateLimiter;
pub use crate::passwords::{hash_password, verify_password};
pub use crate::sessions::{Session, SessionInfo, SessionStore};
pub use crate::tokens::{
    constant_time_eq, generate_api_token, hash_token, mask_token, maybe_auto_generate_token,
    validate_token,
};
pub use crate::uri::Uri;
