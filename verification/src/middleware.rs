//! What is done to every request: authentication, the request id, and the
//! security headers.

use crate::client_ip;
use crate::client_ip::{choose_client_ip, read_proxy_ips, IpAddr, ProxyIps};
use crate::config;
use crate::config::{effective_auth_mode, WebAuthConfig, WebAuthMode};
use crate::extract;
use crate::extract::{
    extract_api_key_header, extract_bearer_token, extract_query_token, extract_session_cookie,
};
use crate::headers;
use crate::headers::{set_header, HeaderOutcome, ROOMY};
use crate::json;
use crate::random;
use crate::responses::{carry_out, AuthOutcome, HttpResponse, Verdict, FORBIDDEN, UNAUTHORIZED};
use crate::routes;
use crate::routes::{is_a2a_endpoint, is_always_public, is_dashboard_public};
use crate::sessions;
use crate::sessions::{Session, SessionStore};
use crate::text;
use crate::tokens;
use crate::tokens::{constant_time_eq, validate_token};
use crate::uri::Uri;
use axum::http::HeaderMap;
use uuid::Uuid;
use vstd::prelude::*;
use vstd::string::*;
use vstd::utf8::*;

verus! {

/// What the authentication of requests goes by.
#[derive(Debug)]
pub struct AuthState {
    /// The settings.
    pub auth_config: WebAuthConfig,
    /// The legacy single key; empty for none.
    pub legacy_api_key: String,
    /// The sessions opened by password logins.
    pub session_store: SessionStore,
}

/// What the authentication reads of a request.
#[derive(Debug)]
pub struct AuthRequest<'a> {
    /// The target.
    pub uri: Uri,
    /// The header fields.
    pub headers: &'a HeaderMap,
    /// The client's address as proxies give it in the header fields.
    pub proxy_ips: ProxyIps,
    /// The address that the request came from.
    pub peer: Option<IpAddr>,
}

impl<'a> AuthRequest<'a> {
    /// The text of a header of the request.
    pub open spec fn header(self, name: Seq<char>) -> Option<Seq<char>> {
        headers::header_text(headers::header_values(*self.headers), name)
    }

    /// The session id that the request carries.
    pub open spec fn session_id(self) -> Option<Seq<char>> {
        extract::session_cookie(self.header("cookie"@))
    }

    /// The token that the request carries: the bearer token, else the API key
    /// header, else the token in the query.
    pub open spec fn token(self) -> Option<Seq<char>> {
        if extract::bearer_token(self.header("authorization"@)) is Some {
            extract::bearer_token(self.header("authorization"@))
        } else if self.header("x-api-key"@) is Some {
            self.header("x-api-key"@)
        } else {
            extract::query_token(text::view_string(self.uri.query))
        }
    }

    /// The token that the request carries.
    pub fn request_token(&self) -> (token: Option<&str>)
        ensures
            text::view_str(token) == self.token(),
    {
        match extract_bearer_token(self.headers) {
            Some(token) => Some(token),
            None => match extract_api_key_header(self.headers) {
                Some(key) => Some(key),
                None => extract_query_token(&self.uri),
            },
        }
    }
}

impl AuthState {
    /// The mode in force.
    pub open spec fn mode(self) -> WebAuthMode {
        config::mode_in_force(self.auth_config.mode, self.legacy_api_key@)
    }

    /// Whether a path is open without credentials.
    pub open spec fn is_open(self, path: Seq<char>) -> bool {
        ||| routes::always_public(path)
        ||| routes::a2a_endpoint(path)
        ||| !self.auth_config.protect_dashboard && routes::dashboard_public(path)
    }

    /// Whether a token is accepted: it is the legacy key or a configured one.
    pub open spec fn accepts(self, token: Seq<char>) -> bool {
        ||| self.legacy_api_key@.len() > 0 && token == self.legacy_api_key@
        ||| tokens::matching_name(self.auth_config.tokens@, token) is Some
    }

    /// Whether the request's credentials are looked at.
    pub open spec fn looks_at_credentials(self, request: AuthRequest) -> bool {
        self.mode() != WebAuthMode::Off && !self.is_open(request.uri.path@)
    }

    /// Whether the request carries a token that is accepted.
    pub open spec fn has_accepted_token(self, request: AuthRequest) -> bool {
        request.token() matches Some(token) && self.accepts(token)
    }

    /// Whether the request carries the id of a session that is live at `now`.
    pub open spec fn has_live_session(self, request: AuthRequest, now: u128) -> bool {
        request.session_id() is Some && sessions::is_live(
            self.session_store.sessions(),
            request.session_id()->0,
            now,
        )
    }

    /// What is decided on a request at `now`.
    pub open spec fn verdict(self, request: AuthRequest, now: u128) -> Verdict {
        if self.mode() == WebAuthMode::Off {
            if client_ip::client_ip(
                request.proxy_ips,
                request.peer,
                self.auth_config.trust_proxy_headers,
            ).loopback() {
                Verdict::Forward
            } else {
                Verdict::NoAuthConfigured
            }
        } else if self.is_open(request.uri.path@) {
            Verdict::Forward
        } else if self.has_accepted_token(request) || self.has_live_session(request, now) {
            Verdict::Forward
        } else if request.token() is Some {
            Verdict::InvalidToken
        } else {
            Verdict::CredentialsRequired(self.mode())
        }
    }

    /// Whether the request's session is looked at: its credentials count and its
    /// token alone does not let it through.
    pub open spec fn looks_at_session(self, request: AuthRequest) -> bool {
        self.looks_at_credentials(request) && !self.has_accepted_token(request)
    }

    /// The sessions after a request at `now`: the session whose id is looked
    /// at counts as used if it is live and is dropped if it is not.
    pub open spec fn sessions_after(self, request: AuthRequest, now: u128) -> Map<
        Seq<char>,
        Session,
    > {
        let before = self.session_store.sessions();
        if self.looks_at_session(request) && request.session_id() is Some {
            let id = request.session_id()->0;
            if sessions::is_live(before, id, now) {
                before.insert(id, before[id].touched_at(now))
            } else {
                before.remove(id)
            }
        } else {
            before
        }
    }

    /// Whether the two agree in all but the sessions.
    pub open spec fn same_settings(self, other: AuthState) -> bool {
        &&& self.auth_config == other.auth_config
        &&& self.legacy_api_key == other.legacy_api_key
        &&& self.session_store.same_timing(&other.session_store)
    }

    /// Whether a path is open without credentials.
    fn is_open_path(&self, path: &str) -> (open: bool)
        ensures
            open == self.is_open(path@),
    {
        is_always_public(path) || is_a2a_endpoint(path) || (!self.auth_config.protect_dashboard
            && is_dashboard_public(path))
    }

    /// Whether a token is accepted.
    fn accepts_token(&self, token: &str) -> (accepted: bool)
        ensures
            accepted == self.accepts(token@),
    {
        if !self.legacy_api_key.as_str().is_empty() && constant_time_eq(
            token,
            self.legacy_api_key.as_str(),
        ) {
            return true;
        }
        validate_token(token, &self.auth_config).is_some()
    }

    /// Decides on a request when the store's clock reads `now`.
    pub fn judge(&mut self, request: &AuthRequest, now: u128) -> (verdict: Verdict)
        ensures
            verdict == old(self).verdict(*request, now),
            final(self).session_store.sessions() == old(self).sessions_after(*request, now),
            final(self).same_settings(*old(self)),
            old(self).session_store.consistent() ==> final(self).session_store.consistent(),
    {
        let mode = effective_auth_mode(&self.auth_config, self.legacy_api_key.as_str());
        if mode == WebAuthMode::Off {
            let ip = choose_client_ip(
                &request.proxy_ips,
                request.peer,
                self.auth_config.trust_proxy_headers,
            );
            if !ip.is_loopback() {
                return Verdict::NoAuthConfigured;
            }
            return Verdict::Forward;
        }
        if self.is_open_path(request.uri.path.as_str()) {
            return Verdict::Forward;
        }
        let token = request.request_token();
        if let Some(token) = token {
            if self.accepts_token(token) {
                return Verdict::Forward;
            }
        }
        if let Some(session_id) = extract_session_cookie(request.headers) {
            if self.session_store.validate_at(session_id.as_str(), now) {
                return Verdict::Forward;
            }
        }
        match token {
            Some(_) => Verdict::InvalidToken,
            None => Verdict::CredentialsRequired(mode),
        }
    }
}

/// Authenticates a request when the store's clock reads `now`.
pub fn auth_at(state: &mut AuthState, request: &AuthRequest, now: u128) -> (outcome: AuthOutcome)
    ensures
        outcome.carries_out(old(state).verdict(*request, now)),
        final(state).session_store.sessions() == old(state).sessions_after(*request, now),
        final(state).same_settings(*old(state)),
        old(state).session_store.consistent() ==> final(state).session_store.consistent(),
{
    carry_out(state.judge(request, now))
}

/// A request, with what was read from its headers.
pub open spec fn read_request<'a>(
    uri: Uri,
    headers: &'a HeaderMap,
    proxy_ips: ProxyIps,
    peer: Option<IpAddr>,
) -> AuthRequest<'a> {
    AuthRequest { uri, headers, proxy_ips, peer }
}

/// Authenticates a request: by the token it carries, by the session cookie or,
/// where authentication is off, by its coming from the machine itself. `parse`
/// reads a text as an address.
pub fn auth<P: Fn(&str) -> Option<IpAddr>>(
    state: &mut AuthState,
    uri: Uri,
    headers: &HeaderMap,
    peer: Option<IpAddr>,
    parse: P,
) -> (outcome: AuthOutcome)
    requires
        forall|t: &str| call_requires(parse, (t,)),
    ensures
        exists|proxy: ProxyIps, now: u128|
            old(state).session_store.clock().reads(now) && #[trigger] client_ip::reads_headers(
                parse,
                headers::header_values(*headers),
                proxy,
            ) && outcome.carries_out(
                #[trigger] old(state).verdict(read_request(uri, headers, proxy, peer), now),
            ) && final(state).session_store.sessions() == old(state).sessions_after(
                read_request(uri, headers, proxy, peer),
                now,
            ),
        final(state).same_settings(*old(state)),
        old(state).session_store.consistent() ==> final(state).session_store.consistent(),
{
    let proxy_ips = read_proxy_ips(headers, parse);
    let request = AuthRequest { uri, headers, proxy_ips, peer };
    let now = state.session_store.now();
    let outcome = auth_at(state, &request, now);
    assert(request == read_request(uri, headers, proxy_ips, peer));
    outcome
}

/// A request is let through exactly if authentication is off and it comes from
/// the machine itself, or authentication is on and the path is open, or the
/// request carries a live session or an accepted token.
pub proof fn law_who_is_let_through(state: AuthState, request: AuthRequest, now: u128)
    ensures
        state.verdict(request, now) == Verdict::Forward <==> if state.mode() == WebAuthMode::Off {
            client_ip::client_ip(
                request.proxy_ips,
                request.peer,
                state.auth_config.trust_proxy_headers,
            ).loopback()
        } else {
            ||| state.is_open(request.uri.path@)
            ||| state.has_accepted_token(request)
            ||| state.has_live_session(request, now)
        },
{
}

/// Where authentication is off, credentials and paths make no difference: a
/// remote client is refused and told so.
pub proof fn law_off_means_local_only(state: AuthState, request: AuthRequest, now: u128)
    requires
        state.mode() == WebAuthMode::Off,
        !client_ip::client_ip(
            request.proxy_ips,
            request.peer,
            state.auth_config.trust_proxy_headers,
        ).loopback(),
    ensures
        state.verdict(request, now) == Verdict::NoAuthConfigured,
        state.sessions_after(request, now) == state.session_store.sessions(),
{
}

/// Where authentication is on, logging in never takes credentials.
pub proof fn law_login_is_reachable(state: AuthState, request: AuthRequest, now: u128)
    requires
        state.mode() != WebAuthMode::Off,
        request.uri.path@ == "/api/auth/login"@,
    ensures
        state.verdict(request, now) == Verdict::Forward,
{
}

/// Where authentication is on and the dashboard is protected, its endpoints
/// take credentials as all others do.
pub proof fn law_protected_dashboard_takes_credentials(
    state: AuthState,
    request: AuthRequest,
    now: u128,
)
    requires
        state.mode() != WebAuthMode::Off,
        state.auth_config.protect_dashboard,
        !routes::always_public(request.uri.path@),
        !routes::a2a_endpoint(request.uri.path@),
    ensures
        state.looks_at_credentials(request),
        !state.has_live_session(request, now) && request.token() is None ==> state.verdict(
            request,
            now,
        ) == Verdict::CredentialsRequired(state.mode()),
{
}

/// The legacy key and every configured token let a request through, wherever
/// authentication is on.
pub proof fn law_known_tokens_are_accepted(
    state: AuthState,
    request: AuthRequest,
    now: u128,
    i: int,
)
    requires
        state.mode() != WebAuthMode::Off,
        request.token() is Some,
        request.token()->0.len() > 0 && request.token()->0 == state.legacy_api_key@ || 0 <= i
            < state.auth_config.tokens@.len() && state.auth_config.tokens@[i].token@
            == request.token()->0,
    ensures
        state.verdict(request, now) == Verdict::Forward,
{
    tokens::law_configured_tokens_are_found(state.auth_config.tokens@, request.token()->0);
}

/// A token that is neither the legacy key nor configured is refused as such,
/// unless the request has a live session. An empty legacy key is no key.
pub proof fn law_unknown_tokens_are_refused(state: AuthState, request: AuthRequest, now: u128)
    requires
        state.looks_at_credentials(request),
        !state.has_live_session(request, now),
        request.token() is Some,
        state.legacy_api_key@.len() == 0 || request.token()->0 != state.legacy_api_key@,
        forall|i: int|
            0 <= i < state.auth_config.tokens@.len() ==> #[trigger] state.auth_config.tokens@[i].token@
                != request.token()->0,
    ensures
        state.verdict(request, now) == Verdict::InvalidToken,
{
    tokens::law_configured_tokens_are_found(state.auth_config.tokens@, request.token()->0);
}

/// A client that has logged in is let through by its session cookie until the
/// session's timeout has passed.
pub proof fn law_logged_in_client_is_let_through(
    state: AuthState,
    request: AuthRequest,
    opened: u128,
    remote_ip: Seq<char>,
    id: Seq<char>,
    now: u128,
)
    requires
        state.mode() != WebAuthMode::Off,
        random::is_hex(id, 64),
        state.session_store.sessions().contains_key(id),
        state.session_store.opens(state.session_store.sessions()[id], id, remote_ip, opened),
        request.header("cookie"@) == Some(extract::SESSION_COOKIE@ + "="@ + id),
        now <= opened + state.session_store.timeout(),
    ensures
        state.verdict(request, now) == Verdict::Forward,
{
    assert(!id.contains(';')) by {
        if id.contains(';') {
            let i = id.index_of(';');
            assert(random::is_hex_digit(id[i]));
        }
    }
    assert(random::is_hex_digit(id[63]));
    extract::law_session_cookie_round_trip(id);
}

/// Tokens come before sessions: a request that its token lets through leaves
/// every session as it is, the one whose id it carries among them.
pub proof fn law_tokens_come_before_sessions(state: AuthState, request: AuthRequest, now: u128)
    requires
        state.mode() != WebAuthMode::Off,
        state.has_accepted_token(request),
    ensures
        state.verdict(request, now) == Verdict::Forward,
        state.sessions_after(request, now) == state.session_store.sessions(),
{
}

/// A request changes no session but the one whose id it carries.
pub proof fn law_request_affects_its_own_session_only(
    state: AuthState,
    request: AuthRequest,
    now: u128,
    other: Seq<char>,
)
    requires
        request.session_id() != Some(other),
    ensures
        state.sessions_after(request, now).get(other) == state.session_store.sessions().get(other),
{
}

/// A refused request is answered by status 403 where authentication is off and
/// by status 401 where it is on; only a request without a token is told how to
/// authenticate.
pub proof fn law_refusals_are_told_apart(
    state: AuthState,
    request: AuthRequest,
    now: u128,
    response: HttpResponse,
)
    requires
        AuthOutcome::Respond(response).carries_out(state.verdict(request, now)),
    ensures
        state.mode() == WebAuthMode::Off ==> response.status == FORBIDDEN,
        state.mode() != WebAuthMode::Off ==> response.status == UNAUTHORIZED,
        state.mode() != WebAuthMode::Off ==> (json::view_fields(response.headers@).contains(
            ("www-authenticate"@, "Bearer"@),
        ) <==> request.token() is None),
{
    let headers = json::view_fields(response.headers@);
    reveal_strlit("www-authenticate");
    reveal_strlit("content-type");
    if state.mode() != WebAuthMode::Off {
        if request.token() is None {
            assert(headers[0] == ("www-authenticate"@, "Bearer"@));
        } else {
            assert(headers.len() == 1);
            assert(headers[0].0 == "content-type"@);
        }
    }
}

/// What a page may load, and from where.
pub const CONTENT_SECURITY_POLICY: &'static str =
    "default-src 'self'; script-src 'self' 'unsafe-inline' 'unsafe-eval'; style-src 'self' 'unsafe-inline' https://fonts.googleapis.com https://fonts.gstatic.com; img-src 'self' data: blob:; connect-src 'self' ws://localhost:* ws://127.0.0.1:* wss://localhost:* wss://127.0.0.1:*; font-src 'self' https://fonts.gstatic.com; media-src 'self' blob:; frame-src 'self' blob:; object-src 'none'; base-uri 'self'; form-action 'self'";

/// The security headers and their values.
pub open spec fn security_header_list() -> Seq<(Seq<char>, Seq<char>)> {
    seq![
        ("x-content-type-options"@, "nosniff"@),
        ("x-frame-options"@, "DENY"@),
        ("x-xss-protection"@, "1; mode=block"@),
        ("content-security-policy"@, CONTENT_SECURITY_POLICY@),
        ("referrer-policy"@, "strict-origin-when-cross-origin"@),
        ("cache-control"@, "no-store, no-cache, must-revalidate"@),
    ]
}

/// Some header values with those of a list set, one after the other, each in
/// place of all that its name had.
pub open spec fn with_headers(
    values: Map<Seq<char>, Seq<Seq<u8>>>,
    list: Seq<(Seq<char>, Seq<char>)>,
) -> Map<Seq<char>, Seq<Seq<u8>>>
    decreases list.len(),
{
    if list.len() == 0 {
        values
    } else {
        with_headers(values, list.drop_last()).insert(
            list.last().0,
            seq![encode_utf8(list.last().1)],
        )
    }
}

/// A header could not be set, because there are too many.
#[derive(Debug, Clone, Copy, PartialEq, Eq, Structural)]
pub struct HeaderMapFull;

/// The characters of some names and values.
pub open spec fn view_pairs(pairs: Seq<(&'static str, &'static str)>) -> Seq<
    (Seq<char>, Seq<char>),
> {
    pairs.map_values(|pair: (&'static str, &'static str)| (pair.0@, pair.1@))
}

/// The security headers and their values. Each can be set.
fn security_header_pairs() -> (pairs: Vec<(&'static str, &'static str)>)
    ensures
        view_pairs(pairs@) == security_header_list(),
        forall|i: int|
            0 <= i < pairs@.len() ==> headers::is_header_name(#[trigger] pairs@[i].0@)
                && headers::is_header_value(pairs@[i].1@),
{
    let pairs = vec![
        ("x-content-type-options", "nosniff"),
        ("x-frame-options", "DENY"),
        ("x-xss-protection", "1; mode=block"),
        ("content-security-policy", CONTENT_SECURITY_POLICY),
        ("referrer-policy", "strict-origin-when-cross-origin"),
        ("cache-control", "no-store, no-cache, must-revalidate"),
    ];
    proof {
        reveal_strlit("x-content-type-options");
        assert(headers::is_header_name("x-content-type-options"@));
        reveal_strlit("nosniff");
        headers::lemma_visible_is_header_value("nosniff"@);
        reveal_strlit("x-frame-options");
        assert(headers::is_header_name("x-frame-options"@));
        reveal_strlit("DENY");
        headers::lemma_visible_is_header_value("DENY"@);
        reveal_strlit("x-xss-protection");
        assert(headers::is_header_name("x-xss-protection"@));
        reveal_strlit("1; mode=block");
        headers::lemma_visible_is_header_value("1; mode=block"@);
        reveal_strlit("content-security-policy");
        assert(headers::is_header_name("content-security-policy"@));
        reveal_strlit("default-src 'self'; script-src 'self' 'unsafe-inline' 'unsafe-eval'; style-src 'self' 'unsafe-inline' https://fonts.googleapis.com https://fonts.gstatic.com; img-src 'self' data: blob:; connect-src 'self' ws://localhost:* ws://127.0.0.1:* wss://localhost:* wss://127.0.0.1:*; font-src 'self' https://fonts.gstatic.com; media-src 'self' blob:; frame-src 'self' blob:; object-src 'none'; base-uri 'self'; form-action 'self'");
        headers::lemma_visible_is_header_value("default-src 'self'; script-src 'self' 'unsafe-inline' 'unsafe-eval'; style-src 'self' 'unsafe-inline' https://fonts.googleapis.com https://fonts.gstatic.com; img-src 'self' data: blob:; connect-src 'self' ws://localhost:* ws://127.0.0.1:* wss://localhost:* wss://127.0.0.1:*; font-src 'self' https://fonts.gstatic.com; media-src 'self' blob:; frame-src 'self' blob:; object-src 'none'; base-uri 'self'; form-action 'self'"@);
        reveal_strlit("referrer-policy");
        assert(headers::is_header_name("referrer-policy"@));
        reveal_strlit("strict-origin-when-cross-origin");
        headers::lemma_visible_is_header_value("strict-origin-when-cross-origin"@);
        reveal_strlit("cache-control");
        assert(headers::is_header_name("cache-control"@));
        reveal_strlit("no-store, no-cache, must-revalidate");
        headers::lemma_visible_is_header_value("no-store, no-cache, must-revalidate"@);
        assert(view_pairs(pairs@) =~= security_header_list());
    }
    pairs
}

/// Sets the security headers of a response, in place of any that it has. A
/// response may have too many headers for that.
pub fn security_headers(headers: &mut HeaderMap) -> (outcome: Result<(), HeaderMapFull>)
    ensures
        outcome is Ok ==> headers::header_values(*final(headers)) == with_headers(
            headers::header_values(*old(headers)),
            security_header_list(),
        ),
        outcome is Err ==> exists|k: int|
            0 <= k < security_header_list().len() && headers::header_values(*final(headers))
                == with_headers(
                headers::header_values(*old(headers)),
                #[trigger] security_header_list().take(k),
            ),
        headers::header_values(*old(headers)).len() + security_header_list().len() <= ROOMY
            ==> outcome is Ok,
{
    let pairs = security_header_pairs();
    let ghost list = security_header_list();
    let ghost before = headers::header_values(*headers);
    let mut i: usize = 0;
    assert(list.take(0) =~= Seq::empty());
    while i < pairs.len()
        invariant
            i <= pairs@.len(),
            list == security_header_list(),
            view_pairs(pairs@) == list,
            forall|k: int|
                0 <= k < pairs@.len() ==> headers::is_header_name(#[trigger] pairs@[k].0@)
                    && headers::is_header_value(pairs@[k].1@),
            before == headers::header_values(*old(headers)),
            headers::header_values(*headers) == with_headers(before, list.take(i as int)),
            i > 0 ==> headers::header_values(*headers).dom().finite(),
            headers::header_values(*headers).len() <= before.len() + i,
        decreases pairs@.len() - i,
    {
        let (name, value) = pairs[i];
        let ghost earlier = headers::header_values(*headers);
        assert(list[i as int] == (name@, value@));
        match set_header(headers, name, value) {
            HeaderOutcome::Done => {},
            _ => {
                return Err(HeaderMapFull);
            },
        }
        assert(list.take(i + 1).drop_last() =~= list.take(i as int));
        proof {
            let later = headers::header_values(*headers);
            assert(earlier.dom().subset_of(later.dom()));
            vstd::set_lib::lemma_set_subset_finite(later.dom(), earlier.dom());
        }
        i += 1;
    }
    assert(list.take(list.len() as int) =~= list);
    Ok(())
}

/// The names of the security headers differ from each other.
proof fn lemma_security_names_differ(i: int, j: int)
    requires
        0 <= i < j < security_header_list().len(),
    ensures
        security_header_list()[i].0 != security_header_list()[j].0,
{
    reveal_strlit("x-content-type-options");
    reveal_strlit("x-frame-options");
    reveal_strlit("x-xss-protection");
    reveal_strlit("content-security-policy");
    reveal_strlit("referrer-policy");
    reveal_strlit("cache-control");
    let list = security_header_list();
    assert(list[0].0.len() == 22 && list[1].0.len() == 15 && list[2].0.len() == 16);
    assert(list[3].0.len() == 23 && list[4].0.len() == 15 && list[5].0.len() == 13);
    assert(list[1].0[0] == 'x' && list[4].0[0] == 'r');
    assert(i == 0 || i == 1 || i == 2 || i == 3 || i == 4);
    assert(j == 1 || j == 2 || j == 3 || j == 4 || j == 5);
}

/// Setting some headers leaves the others as they are.
proof fn lemma_with_headers_frame(
    values: Map<Seq<char>, Seq<Seq<u8>>>,
    list: Seq<(Seq<char>, Seq<char>)>,
    name: Seq<char>,
)
    requires
        forall|i: int| 0 <= i < list.len() ==> (#[trigger] list[i]).0 != name,
    ensures
        with_headers(values, list).get(name) == values.get(name),
    decreases list.len(),
{
    if list.len() > 0 {
        let shorter = list.drop_last();
        assert forall|i: int| 0 <= i < shorter.len() implies (#[trigger] shorter[i]).0 != name by {
            assert(shorter[i] == list[i]);
        }
        assert(list.last() == list[list.len() - 1]);
        lemma_with_headers_frame(values, shorter, name);
    }
}

/// A header that is set last among those of its name has the value it was set
/// to.
proof fn lemma_with_headers_sets(
    values: Map<Seq<char>, Seq<Seq<u8>>>,
    list: Seq<(Seq<char>, Seq<char>)>,
    i: int,
)
    requires
        0 <= i < list.len(),
        forall|j: int| i < j < list.len() ==> (#[trigger] list[j]).0 != list[i].0,
    ensures
        with_headers(values, list).get(list[i].0) == Some(seq![encode_utf8(list[i].1)]),
    decreases list.len(),
{
    if i < list.len() - 1 {
        let shorter = list.drop_last();
        assert(shorter[i] == list[i]);
        assert forall|j: int| i < j < shorter.len() implies (#[trigger] shorter[j]).0
            != shorter[i].0 by {
            assert(shorter[j] == list[j]);
        }
        lemma_with_headers_sets(values, shorter, i);
        assert(list.last() == list[list.len() - 1]);
    }
}

/// Whatever headers a response had, each security header then has the value
/// that it is to have and no other, and the other headers are as they were,
/// with all their values.
pub proof fn law_security_headers_always_hold(
    values: Map<Seq<char>, Seq<Seq<u8>>>,
    i: int,
    other: Seq<char>,
)
    requires
        0 <= i < security_header_list().len(),
        forall|j: int|
            0 <= j < security_header_list().len() ==> (#[trigger] security_header_list()[j]).0
                != other,
    ensures
        with_headers(values, security_header_list()).get(security_header_list()[i].0) == Some(
            seq![encode_utf8(security_header_list()[i].1)],
        ),
        with_headers(values, security_header_list()).get(other) == values.get(other),
{
    let list = security_header_list();
    assert forall|j: int| i < j < list.len() implies (#[trigger] list[j]).0 != list[i].0 by {
        lemma_security_names_differ(i, j);
    }
    lemma_with_headers_sets(values, list, i);
    lemma_with_headers_frame(values, list, other);
}

/// Setting the security headers of a response that has them changes nothing.
pub proof fn law_security_headers_are_set_once(values: Map<Seq<char>, Seq<Seq<u8>>>)
    ensures
        with_headers(with_headers(values, security_header_list()), security_header_list())
            == with_headers(values, security_header_list()),
{
    let list = security_header_list();
    let once = with_headers(values, list);
    let twice = with_headers(once, list);
    assert forall|name: Seq<char>| #[trigger] twice.get(name) == once.get(name) by {
        if exists|i: int| 0 <= i < list.len() && (#[trigger] list[i]).0 == name {
            let i = choose|i: int| 0 <= i < list.len() && (#[trigger] list[i]).0 == name;
            assert forall|j: int| i < j < list.len() implies (#[trigger] list[j]).0
                != list[i].0 by {
                lemma_security_names_differ(i, j);
            }
            lemma_with_headers_sets(values, list, i);
            lemma_with_headers_sets(once, list, i);
        } else {
            lemma_with_headers_frame(once, list, name);
        }
    }
    assert forall|name: Seq<char>| #[trigger] twice.dom().contains(name) == once.dom().contains(
        name,
    ) by {
        assert(twice.get(name) == once.get(name));
    }
    assert forall|name: Seq<char>| #[trigger] once.dom().contains(name) implies twice[name]
        == once[name] by {
        assert(twice.get(name) == once.get(name));
    }
    assert(twice =~= once);
}

/// A response that gets its request id has that id and no other, and its other
/// headers are as they were, with all their values.
pub proof fn law_response_has_one_request_id(
    values: Map<Seq<char>, Seq<Seq<u8>>>,
    id: Seq<char>,
    other: Seq<char>,
)
    requires
        other != REQUEST_ID_HEADER@,
    ensures
        values.insert(REQUEST_ID_HEADER@, seq![encode_utf8(id)]).get(REQUEST_ID_HEADER@) == Some(
            seq![encode_utf8(id)],
        ),
        values.insert(REQUEST_ID_HEADER@, seq![encode_utf8(id)]).get(other) == values.get(other),
        REQUEST_ID_HEADER@ == "x-request-id"@,
{
}

/// The name of the header that carries the request id.
pub const REQUEST_ID_HEADER: &'static str = "x-request-id";

/// Whether a text is a random UUID: 32 lower-case hexadecimal digits in groups
/// of eight, four, four, four and twelve, with the version and the variant of
/// random UUIDs.
pub open spec fn is_request_id(id: Seq<char>) -> bool {
    &&& id.len() == 36
    &&& forall|i: int|
        0 <= i < id.len() ==> if i == 8 || i == 13 || i == 18 || i == 23 {
            #[trigger] id[i] == '-'
        } else {
            random::is_hex_digit(id[i])
        }
    &&& id[14] == '4'
    &&& id[19] == '8' || id[19] == '9' || id[19] == 'a' || id[19] == 'b'
}

/// Calls `Uuid::new_v4` and writes the UUID out. It is random: all that is
/// claimed is the form of a version 4 UUID with hyphens.
#[verifier::external_body]
fn random_uuid() -> (id: String)
    ensures
        is_request_id(id@),
{
    Uuid::new_v4().to_string()
}

/// A fresh random request id.
pub fn generate_request_id() -> (id: String)
    ensures
        is_request_id(id@),
        headers::is_header_value(id@),
{
    let id = random_uuid();
    proof {
        law_request_id_is_header_value(id@);
    }
    id
}

/// A request id can always be sent back in a header.
pub proof fn law_request_id_is_header_value(id: Seq<char>)
    requires
        is_request_id(id),
    ensures
        headers::is_header_value(id),
{
    headers::lemma_visible_is_header_value(id);
}

/// What is logged of a request.
#[derive(Debug)]
pub struct RequestLog {
    pub request_id: String,
    pub method: String,
    pub path: String,
    pub status: u16,
    pub latency_ms: u64,
}

/// The milliseconds in a number of nanoseconds, as far as a `u64` holds them.
pub open spec fn latency_ms(nanos: u128) -> int {
    (nanos / 1_000_000) as int % 0x1_0000_0000_0000_0000
}

/// What is done when a request has been answered: the log entry is made up,
/// and the request id is put into the headers of the response, if it can stand
/// there. A response may have too many headers for that.
pub fn request_logging(
    headers: &mut HeaderMap,
    request_id: &str,
    method: &str,
    path: &str,
    status: u16,
    elapsed_nanos: u128,
) -> (outcome: (RequestLog, Result<(), HeaderMapFull>))
    ensures
        outcome.0.request_id@ == request_id@,
        outcome.0.method@ == method@,
        outcome.0.path@ == path@,
        outcome.0.status == status,
        outcome.0.latency_ms == latency_ms(elapsed_nanos),
        elapsed_nanos < 18_446_744_073_709_551_616_000_000 ==> outcome.0.latency_ms * 1_000_000
            <= elapsed_nanos < (outcome.0.latency_ms + 1) * 1_000_000,
        headers::header_values(*final(headers)) == (if headers::is_header_value(request_id@)
            && outcome.1 is Ok {
            headers::header_values(*old(headers)).insert(
                REQUEST_ID_HEADER@,
                seq![encode_utf8(request_id@)],
            )
        } else {
            headers::header_values(*old(headers))
        }),
        outcome.1 is Err ==> headers::is_header_value(request_id@),
        headers::header_values(*old(headers)).len() <= ROOMY ==> outcome.1 is Ok,
{
    let millis: u128 = (elapsed_nanos / 1_000_000) % 0x1_0000_0000_0000_0000;
    let log = RequestLog {
        request_id: request_id.to_owned(),
        method: method.to_owned(),
        path: path.to_owned(),
        status,
        latency_ms: millis as u64,
    };
    proof {
        reveal_strlit("x-request-id");
    }
    let tagged = match set_header(headers, REQUEST_ID_HEADER, request_id) {
        HeaderOutcome::MapFull => Err(HeaderMapFull),
        _ => Ok(()),
    };
    (log, tagged)
}

/// Where authentication is on, a request without credentials is let through
/// exactly if its path is one that never takes any, lies below `/a2a/`, or is one
/// of the dashboard's while the dashboard is not protected. Any other is asked
/// for credentials, and told the mode.
pub proof fn law_paths_open_without_credentials(
    state: AuthState,
    request: AuthRequest,
    now: u128,
)
    requires
        state.auth_config.mode != WebAuthMode::Off || state.legacy_api_key@.len() > 0,
        request.header("authorization"@) is None,
        request.header("x-api-key"@) is None,
        request.header("cookie"@) is None,
        request.uri.query is None,
    ensures
        ({
            let path = request.uri.path@;
            let open = routes::always_public(path) || routes::a2a_endpoint(path) || (
            !state.auth_config.protect_dashboard && routes::dashboard_public(path));
            &&& open ==> state.verdict(request, now) == Verdict::Forward
            &&& !open && state.auth_config.mode != WebAuthMode::Off ==> state.verdict(request, now)
                == Verdict::CredentialsRequired(state.auth_config.mode)
            &&& !open && state.auth_config.mode == WebAuthMode::Off ==> state.verdict(request, now)
                == Verdict::CredentialsRequired(WebAuthMode::Token)
        }),
{
    assert(request.token() is None && request.session_id() is None);
}

/// Where authentication is on and a path is not open to requests without
/// credentials, a request for it is let through exactly if it carries the legacy
/// key or a configured token, or the id of a session whose timeout has not
/// passed. Otherwise it is told that its token is wrong or, without one, which
/// mode asks for credentials. Where a path is open, credentials do no harm.
pub proof fn law_which_credentials_count(
    state: AuthState,
    request: AuthRequest,
    bare: AuthRequest,
    now: u128,
)
    requires
        state.auth_config.mode != WebAuthMode::Off || state.legacy_api_key@.len() > 0,
        bare.uri.path@ == request.uri.path@,
        bare.header("authorization"@) is None,
        bare.header("x-api-key"@) is None,
        bare.header("cookie"@) is None,
        bare.uri.query is None,
    ensures
        ({
            let sessions = state.session_store.sessions();
            let configured = state.auth_config.tokens@;
            let known = request.token() is Some && (state.legacy_api_key@.len() > 0
                && request.token()->0 == state.legacy_api_key@ || exists|i: int|
                0 <= i < configured.len() && #[trigger] configured[i].token@ == request.token()->0);
            let logged_in = request.session_id() is Some && sessions.contains_key(
                request.session_id()->0,
            ) && now <= sessions[request.session_id()->0].last_used
                + sessions[request.session_id()->0].timeout;
            let bare_verdict = state.verdict(bare, now);
            let verdict = state.verdict(request, now);
            &&& bare_verdict == Verdict::Forward ==> verdict == Verdict::Forward
            &&& known || logged_in ==> verdict == Verdict::Forward
            &&& bare_verdict != Verdict::Forward && !known && !logged_in && request.token() is Some
                ==> verdict == Verdict::InvalidToken
            &&& bare_verdict != Verdict::Forward && !known && !logged_in && request.token() is None
                ==> verdict == bare_verdict
        }),
{
    if request.token() is Some {
        tokens::law_configured_tokens_are_found(state.auth_config.tokens@, request.token()->0);
    }
    assert(bare.token() is None && bare.session_id() is None);
}

/// Where nothing is configured, a request is let through exactly if it comes
/// from `127.0.0.0/8` or `::1`, by what trusted proxies say first and by its peer
/// otherwise. One of unknown origin is refused.
pub proof fn law_unconfigured_serves_the_machine_only(
    state: AuthState,
    request: AuthRequest,
    now: u128,
    ip: IpAddr,
)
    requires
        state.auth_config.mode == WebAuthMode::Off,
        state.legacy_api_key@.len() == 0,
    ensures
        ({
            let trust = state.auth_config.trust_proxy_headers;
            let proxy = request.proxy_ips;
            let verdict = state.verdict(request, now);
            let silent = proxy.cf_connecting_ip is None && proxy.x_real_ip is None
                && proxy.x_forwarded_for is None;
            let from_ip = trust && proxy.cf_connecting_ip == Some(ip) || trust
                && proxy.cf_connecting_ip is None && proxy.x_real_ip == Some(ip) || trust
                && proxy.cf_connecting_ip is None && proxy.x_real_ip is None
                && proxy.x_forwarded_for == Some(ip) || (!trust || silent) && request.peer == Some(
                ip,
            );
            &&& from_ip ==> (ip matches IpAddr::V4(bits) ==> verdict == (if bits / 0x100_0000
                == 127 {
                Verdict::Forward
            } else {
                Verdict::NoAuthConfigured
            }))
            &&& from_ip ==> (ip matches IpAddr::V6(bits) ==> verdict == (if bits == 1 {
                Verdict::Forward
            } else {
                Verdict::NoAuthConfigured
            }))
            &&& (!trust || silent) && request.peer is None ==> verdict == Verdict::NoAuthConfigured
        }),
{
}

/// The token of a request is what follows `Bearer ` in its authorization header;
/// without that, its API key header; without that too, the token in its query.
pub proof fn law_which_token_a_request_carries(request: AuthRequest, token: Seq<char>)
    ensures
        request.header("authorization"@) == Some("Bearer "@ + token) ==> request.token() == Some(
            token,
        ),
        (request.header("authorization"@) matches Some(v) ==> !"Bearer "@.is_prefix_of(v))
            && request.header("x-api-key"@) == Some(token) ==> request.token() == Some(token),
        (request.header("authorization"@) matches Some(v) ==> !"Bearer "@.is_prefix_of(v))
            && request.header("x-api-key"@) is None && request.uri.query is None
            ==> request.token() is None,
        (request.header("authorization"@) matches Some(v) ==> !"Bearer "@.is_prefix_of(v))
            && request.header("x-api-key"@) is None ==> (request.uri.query matches Some(q)
            ==> !q@.contains('&') ==> (request.token() == Some(token) <==> q@ == "token="@
            + token)),
        (request.header("authorization"@) matches Some(v) ==> !"Bearer "@.is_prefix_of(v))
            && request.header("x-api-key"@) is None ==> request.token() == extract::query_token(
            text::view_string(request.uri.query),
        ),
        request.session_id() == extract::session_cookie(request.header("cookie"@)),
        request.header("cookie"@) is None ==> request.session_id() is None,
{
    extract::law_bearer_round_trip(token);
    if let Some(q) = request.uri.query {
        if !q@.contains('&') {
            extract::law_single_parameter(q@, token);
        }
    }
}

/// What a request does to the sessions. Where its session has to let it in, a
/// live session is used at that moment and an expired one is dropped; in every
/// other case, and to every other session, nothing is done.
pub proof fn law_what_a_request_does_to_sessions(
    state: AuthState,
    request: AuthRequest,
    bare: AuthRequest,
    id: Seq<char>,
    now: u128,
)
    requires
        bare.uri.path@ == request.uri.path@,
        bare.header("authorization"@) is None,
        bare.header("x-api-key"@) is None,
        bare.header("cookie"@) is None,
        bare.uri.query is None,
    ensures
        ({
            let before = state.session_store.sessions();
            let after = state.sessions_after(request, now);
            let configured = state.auth_config.tokens@;
            let on = state.auth_config.mode != WebAuthMode::Off || state.legacy_api_key@.len() > 0;
            let known = request.token() is Some && (state.legacy_api_key@.len() > 0
                && request.token()->0 == state.legacy_api_key@ || exists|i: int|
                0 <= i < configured.len() && #[trigger] configured[i].token@ == request.token()->0);
            let looked_at = on && state.verdict(bare, now) != Verdict::Forward && !known
                && request.session_id() == Some(id);
            let live = before.contains_key(id) && now <= before[id].last_used + before[id].timeout;
            &&& !looked_at ==> after.get(id) == before.get(id)
            &&& looked_at && !live ==> !after.contains_key(id)
            &&& looked_at && live ==> after.contains_key(id) && after[id].last_used == now
                && after[id].id == before[id].id && after[id].created_at == before[id].created_at
                && after[id].created_from == before[id].created_from && after[id].timeout
                == before[id].timeout && after[id].clock == before[id].clock
        }),
{
    if request.token() is Some {
        tokens::law_configured_tokens_are_found(state.auth_config.tokens@, request.token()->0);
    }
    assert(bare.token() is None && bare.session_id() is None);
}

/// A request is judged by the target, the headers, the proxies' addresses and
/// the peer that it came with, and the settings stay as they are.
pub proof fn law_request_is_judged_as_it_came<'a>(
    uri: Uri,
    headers: &'a HeaderMap,
    proxy_ips: ProxyIps,
    peer: Option<IpAddr>,
    name: Seq<char>,
    state: AuthState,
    other: AuthState,
)
    ensures
        read_request(uri, headers, proxy_ips, peer).header(name) == headers::header_text(
            headers::header_values(*headers),
            name,
        ),
        read_request(uri, headers, proxy_ips, peer).uri == uri,
        read_request(uri, headers, proxy_ips, peer).headers == headers,
        read_request(uri, headers, proxy_ips, peer).proxy_ips == proxy_ips,
        read_request(uri, headers, proxy_ips, peer).peer == peer,
        state.same_settings(other) ==> state.auth_config == other.auth_config
            && state.legacy_api_key == other.legacy_api_key && state.session_store.timeout()
            == other.session_store.timeout() && state.session_store.clock()
            == other.session_store.clock(),
{
}

/// The security headers by name, with the one value that each then has.
pub proof fn law_security_headers_by_name(
    values: Map<Seq<char>, Seq<Seq<u8>>>,
    other: Seq<char>,
)
    ensures
        ({
            let after = with_headers(values, security_header_list());
            &&& after.get("x-content-type-options"@) == Some(seq![encode_utf8("nosniff"@)])
            &&& after.get("x-frame-options"@) == Some(seq![encode_utf8("DENY"@)])
            &&& after.get("x-xss-protection"@) == Some(seq![encode_utf8("1; mode=block"@)])
            &&& after.get("content-security-policy"@) == Some(
                seq![
                    encode_utf8(
                        "default-src 'self'; script-src 'self' 'unsafe-inline' 'unsafe-eval'; style-src 'self' 'unsafe-inline' https://fonts.googleapis.com https://fonts.gstatic.com; img-src 'self' data: blob:; connect-src 'self' ws://localhost:* ws://127.0.0.1:* wss://localhost:* wss://127.0.0.1:*; font-src 'self' https://fonts.gstatic.com; media-src 'self' blob:; frame-src 'self' blob:; object-src 'none'; base-uri 'self'; form-action 'self'"@,
                    ),
                ],
            )
            &&& after.get("referrer-policy"@) == Some(
                seq![encode_utf8("strict-origin-when-cross-origin"@)],
            )
            &&& after.get("cache-control"@) == Some(
                seq![encode_utf8("no-store, no-cache, must-revalidate"@)],
            )
            &&& other != "x-content-type-options"@ && other != "x-frame-options"@ && other
                != "x-xss-protection"@ && other != "content-security-policy"@ && other
                != "referrer-policy"@ && other != "cache-control"@ ==> after.get(other)
                == values.get(other)
        }),
{
    let list = security_header_list();
    assert(list.len() == 6);
    assert forall|i: int| 0 <= i < list.len() implies with_headers(values, list).get(
        (#[trigger] list[i]).0,
    ) == Some(seq![encode_utf8(list[i].1)]) by {
        assert forall|j: int| i < j < list.len() implies (#[trigger] list[j]).0 != list[i].0 by {
            lemma_security_names_differ(i, j);
        }
        lemma_with_headers_sets(values, list, i);
    }
    assert(list[0].0 == "x-content-type-options"@);
    assert(list[1].0 == "x-frame-options"@);
    assert(list[2].0 == "x-xss-protection"@);
    assert(list[3].0 == "content-security-policy"@);
    assert(list[4].0 == "referrer-policy"@);
    assert(list[5].0 == "cache-control"@);
    if forall|i: int| 0 <= i < list.len() ==> (#[trigger] list[i]).0 != other {
        lemma_with_headers_frame(values, list, other);
    }
}

/// The latency that is logged is the whole milliseconds of the elapsed time, as
/// long as 64 bits hold them; beyond that, their lowest 64 bits.
pub proof fn law_latency_is_in_whole_milliseconds(nanos: u128)
    ensures
        0 <= latency_ms(nanos) <= u64::MAX,
        nanos < 18_446_744_073_709_551_616_000_000 ==> latency_ms(nanos) * 1_000_000 <= nanos < (
        latency_ms(nanos) + 1) * 1_000_000,
        ((nanos / 1_000_000) as int - latency_ms(nanos)) % 0x1_0000_0000_0000_0000 == 0,
{
    let millis = (nanos / 1_000_000) as int;
    let laps = millis / 0x1_0000_0000_0000_0000;
    assert(millis - latency_ms(nanos) == laps * 0x1_0000_0000_0000_0000);
}

/// A longer time is never logged as a shorter one, as long as 64 bits hold the
/// milliseconds.
pub proof fn law_longer_is_not_logged_as_shorter(nanos: u128, longer: u128)
    requires
        nanos <= longer < 18_446_744_073_709_551_616_000_000,
    ensures
        latency_ms(nanos) <= latency_ms(longer),
        longer >= nanos + 1_000_000 ==> latency_ms(nanos) < latency_ms(longer),
{
}

} // verus!
