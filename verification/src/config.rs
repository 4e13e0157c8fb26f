//! The settings of web authentication.

use vstd::prelude::*;

verus! {

/// How requests are authenticated.
#[derive(Debug, Clone, Copy, PartialEq, Eq, Structural)]
pub enum WebAuthMode {
    /// Not at all.
    Off,
    /// By API tokens.
    Token,
    /// By every method.
    Full,
}

impl WebAuthMode {
    /// The name of the mode.
    pub open spec fn spec_name(self) -> Seq<char> {
        match self {
            WebAuthMode::Off => "none"@,
            WebAuthMode::Token => "token"@,
            WebAuthMode::Full => "full"@,
        }
    }

    /// The name of the mode.
    pub fn name(&self) -> (name: &'static str)
        ensures
            name@ == self.spec_name(),
    {
        match self {
            WebAuthMode::Off => "none",
            WebAuthMode::Token => "token",
            WebAuthMode::Full => "full",
        }
    }
}

/// A named API token.
#[derive(Debug)]
pub struct WebAuthToken {
    pub name: String,
    pub token: String,
    pub created_at: String,
}

impl Clone for WebAuthToken {
    fn clone(&self) -> (copy: Self)
        ensures
            copy == *self,
    {
        WebAuthToken {
            name: self.name.clone(),
            token: self.token.clone(),
            created_at: self.created_at.clone(),
        }
    }
}

/// The settings of web authentication.
#[derive(Debug)]
pub struct WebAuthConfig {
    /// How requests are authenticated.
    pub mode: WebAuthMode,
    /// The API tokens that are accepted.
    pub tokens: Vec<WebAuthToken>,
    /// Whether a token is made at startup if there is none.
    pub auto_generate_token: bool,
    /// Whether the dashboard's own endpoints ask for credentials too.
    pub protect_dashboard: bool,
    /// Whether the headers in which a proxy names the client are believed.
    pub trust_proxy_headers: bool,
}

impl Default for WebAuthConfig {
    fn default() -> (config: Self)
        ensures
            config.mode == WebAuthMode::Off,
            config.tokens@.len() == 0,
            !config.auto_generate_token,
            !config.protect_dashboard,
            !config.trust_proxy_headers,
    {
        WebAuthConfig {
            mode: WebAuthMode::Off,
            tokens: Vec::new(),
            auto_generate_token: false,
            protect_dashboard: false,
            trust_proxy_headers: false,
        }
    }
}

/// The mode that is in force: the configured one or, where none is configured
/// and there is a legacy key, token mode.
pub open spec fn mode_in_force(mode: WebAuthMode, legacy_api_key: Seq<char>) -> WebAuthMode {
    if mode == WebAuthMode::Off && legacy_api_key.len() > 0 {
        WebAuthMode::Token
    } else {
        mode
    }
}

/// The mode that is in force, considering both the configured mode and the
/// legacy key.
pub fn effective_auth_mode(config: &WebAuthConfig, legacy_api_key: &str) -> (mode: WebAuthMode)
    ensures
        mode == mode_in_force(config.mode, legacy_api_key@),
{
    if config.mode != WebAuthMode::Off {
        return config.mode;
    }
    if !legacy_api_key.is_empty() {
        return WebAuthMode::Token;
    }
    WebAuthMode::Off
}

/// Authentication is off exactly where no mode is configured and there is no
/// legacy key.
pub proof fn law_off_only_without_any_setting(mode: WebAuthMode, legacy_api_key: Seq<char>)
    ensures
        mode_in_force(mode, legacy_api_key) == WebAuthMode::Off <==> mode == WebAuthMode::Off
            && legacy_api_key.len() == 0,
{
}

/// A configured mode is the mode in force, whatever the legacy key. Where none
/// is configured, a legacy key puts token mode in force.
pub proof fn law_configured_mode_is_in_force(mode: WebAuthMode, legacy_api_key: Seq<char>)
    ensures
        mode != WebAuthMode::Off ==> mode_in_force(mode, legacy_api_key) == mode,
        legacy_api_key.len() > 0 ==> mode_in_force(WebAuthMode::Off, legacy_api_key)
            == WebAuthMode::Token,
        legacy_api_key.len() == 0 ==> mode_in_force(mode, legacy_api_key) == mode,
{
}

/// A mode is known by its name.
pub proof fn law_mode_names(mode: WebAuthMode)
    ensures
        mode.spec_name() == "none"@ <==> mode == WebAuthMode::Off,
        mode.spec_name() == "token"@ <==> mode == WebAuthMode::Token,
        mode.spec_name() == "full"@ <==> mode == WebAuthMode::Full,
{
    reveal_strlit("none");
    reveal_strlit("token");
    reveal_strlit("full");
    assert("none"@[0] != "full"@[0]);
    assert("token"@.len() != "full"@.len());
}

} // verus!
