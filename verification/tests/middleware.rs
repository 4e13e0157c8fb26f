use axum::http::{HeaderMap, HeaderValue};
use openfang_web_auth::middleware::{
    auth, auth_at, generate_request_id, request_logging, security_headers, AuthRequest, AuthState,
    HeaderMapFull, CONTENT_SECURITY_POLICY, REQUEST_ID_HEADER,
};
use openfang_web_auth::responses::{carry_out, json_error, AuthOutcome, HttpResponse, Verdict};
use openfang_web_auth::routes::{is_a2a_endpoint, is_always_public, is_dashboard_public};
use openfang_web_auth::text::{cut_text, same_text, starts_with, strip_prefix, trim_text};
use openfang_web_auth::web_auth::{
    IpAddr, ProxyIps, SessionStore, Uri, WebAuthConfig, WebAuthMode, WebAuthToken,
};

const SEC: u128 = 1_000_000_000;
const LOCAL: IpAddr = IpAddr::V4(0x7f00_0001);
const REMOTE: IpAddr = IpAddr::V4(0x0102_0304);

#[test]
fn test_request_id_header_constant() {
    assert_eq!(REQUEST_ID_HEADER, "x-request-id");
}

#[test]
fn test_always_public_endpoints() {
    assert!(is_always_public("/api/health"));
    assert!(is_always_public("/api/version"));
    assert!(is_always_public("/api/auth/login"));
    assert!(!is_always_public("/api/agents"));
}

#[test]
fn test_a2a_endpoints() {
    assert!(is_a2a_endpoint("/a2a/tasks/send"));
    assert!(!is_a2a_endpoint("/api/a2a/agents"));
}

#[test]
fn public_endpoints_match_whole_paths() {
    for path in [
        "/logo.png",
        "/favicon.ico",
        "/.well-known/agent.json",
        "/api/auth/status",
        "/api/auth/mode",
    ] {
        assert!(is_always_public(path));
        assert!(!is_dashboard_public(path));
    }
    assert!(!is_always_public("/api/health/"));
    assert!(!is_always_public(""));
    assert!(!is_a2a_endpoint("/a2a"));
    assert!(is_a2a_endpoint("/a2a/"));
}

#[test]
fn dashboard_endpoints() {
    for path in [
        "/",
        "/api/health/detail",
        "/api/status",
        "/api/agents",
        "/api/profiles",
        "/api/config",
        "/api/uploads/x.png",
        "/api/models",
        "/api/models/aliases",
        "/api/providers",
        "/api/budget",
        "/api/budget/agents",
        "/api/budget/agents/7",
        "/api/network/status",
        "/api/a2a/agents",
        "/api/approvals",
        "/api/approvals/1",
        "/api/channels",
        "/api/hands",
        "/api/hands/active",
        "/api/hands/x/y",
        "/api/skills",
        "/api/sessions",
        "/api/integrations",
        "/api/integrations/available",
        "/api/integrations/health",
        "/api/workflows",
        "/api/logs/stream",
        "/api/cron/jobs",
        "/api/providers/github-copilot/oauth/start",
    ] {
        assert!(is_dashboard_public(path), "{}", path);
        assert!(!is_always_public(path), "{}", path);
    }
    for path in [
        "",
        "/x",
        "/api/uploads",
        "/api/cron",
        "/api/agents/1",
        "/api/models/x",
        "/api/providers/github-copilot/oauth",
    ] {
        assert!(!is_dashboard_public(path), "{}", path);
    }
}

fn state(mode: WebAuthMode, key: &str) -> AuthState {
    AuthState {
        auth_config: WebAuthConfig {
            mode,
            tokens: vec![WebAuthToken {
                name: "ci".to_string(),
                token: "of-ci".to_string(),
                created_at: String::new(),
            }],
            ..Default::default()
        },
        legacy_api_key: key.to_string(),
        session_store: SessionStore::new(10),
    }
}

fn request<'a>(target: &str, headers: &'a HeaderMap, peer: Option<IpAddr>) -> AuthRequest<'a> {
    AuthRequest {
        uri: Uri::parse(target).unwrap(),
        headers,
        proxy_ips: ProxyIps {
            cf_connecting_ip: None,
            x_real_ip: None,
            x_forwarded_for: None,
        },
        peer,
    }
}

fn headers(fields: &[(&'static str, &str)]) -> HeaderMap {
    let mut map = HeaderMap::new();
    for (name, value) in fields {
        map.insert(*name, HeaderValue::from_str(value).unwrap());
    }
    map
}

fn status(outcome: AuthOutcome) -> u16 {
    match outcome {
        AuthOutcome::Forward => 200,
        AuthOutcome::Respond(response) => response.status,
    }
}

fn answer(outcome: AuthOutcome) -> HttpResponse {
    match outcome {
        AuthOutcome::Forward => panic!("let through"),
        AuthOutcome::Respond(response) => response,
    }
}

#[test]
fn without_authentication_only_the_machine_itself_is_served() {
    let none = HeaderMap::new();
    let mut state = state(WebAuthMode::Off, "");
    assert_eq!(status(auth_at(&mut state, &request("/x", &none, Some(LOCAL)), 0)), 200);
    assert_eq!(status(auth_at(&mut state, &request("/x", &none, Some(IpAddr::V6(1))), 0)), 200);
    let refused = answer(auth_at(&mut state, &request("/api/health", &none, Some(REMOTE)), 0));
    assert_eq!(refused.status, 403);
    assert_eq!(
        refused.headers,
        vec![("content-type".to_string(), "application/json".to_string())]
    );
    assert_eq!(
        refused.body,
        "{\"error\":\"No authentication configured. Remote access denied. Configure api_key or [auth] section in ~/.openfang/config.toml\"}"
    );
    let token = headers(&[("authorization", "Bearer of-ci")]);
    assert_eq!(status(auth_at(&mut state, &request("/x", &token, Some(REMOTE)), 0)), 403);
    assert_eq!(status(auth_at(&mut state, &request("/x", &none, None), 0)), 403);
}

#[test]
fn proxies_are_believed_only_if_trusted() {
    let none = HeaderMap::new();
    let mut state = state(WebAuthMode::Off, "");
    let mut spoofed = request("/x", &none, Some(REMOTE));
    spoofed.proxy_ips.x_real_ip = Some(LOCAL);
    assert_eq!(status(auth_at(&mut state, &spoofed, 0)), 403);
    state.auth_config.trust_proxy_headers = true;
    assert_eq!(status(auth_at(&mut state, &spoofed, 0)), 200);
    let mut proxied = request("/x", &none, Some(LOCAL));
    proxied.proxy_ips.x_forwarded_for = Some(REMOTE);
    assert_eq!(status(auth_at(&mut state, &proxied, 0)), 403);
}

#[test]
fn open_paths_take_no_credentials() {
    let none = HeaderMap::new();
    let mut state = state(WebAuthMode::Token, "");
    for path in ["/api/auth/login", "/a2a/x", "/api/agents", "/", "/api/hands/1"] {
        assert_eq!(status(auth_at(&mut state, &request(path, &none, Some(REMOTE)), 0)), 200);
    }
    state.auth_config.protect_dashboard = true;
    assert_eq!(status(auth_at(&mut state, &request("/api/auth/login", &none, None), 0)), 200);
    assert_eq!(status(auth_at(&mut state, &request("/a2a/x", &none, None), 0)), 200);
    assert_eq!(status(auth_at(&mut state, &request("/api/agents", &none, None), 0)), 401);
    assert_eq!(status(auth_at(&mut state, &request("/", &none, None), 0)), 401);
}

#[test]
fn missing_credentials_are_asked_for() {
    let none = HeaderMap::new();
    let mut full = state(WebAuthMode::Full, "");
    let refused = answer(auth_at(&mut full, &request("/secret", &none, Some(LOCAL)), 0));
    assert_eq!(refused.status, 401);
    assert_eq!(
        refused.headers,
        vec![
            ("www-authenticate".to_string(), "Bearer".to_string()),
            ("content-type".to_string(), "application/json".to_string()),
        ]
    );
    assert_eq!(
        refused.body,
        "{\"auth_mode\":\"full\",\"error\":\"Authentication required. Provide Authorization: Bearer <token> header, or log in with password.\"}"
    );
    let mut legacy = state(WebAuthMode::Off, "key");
    let refused = answer(auth_at(&mut legacy, &request("/secret", &none, Some(LOCAL)), 0));
    assert!(refused.body.contains("\"auth_mode\":\"token\""));
}

#[test]
fn tokens_let_requests_through() {
    let mut state = state(WebAuthMode::Token, "legacy");
    let bearer = headers(&[("authorization", "Bearer of-ci")]);
    let key = headers(&[("x-api-key", "legacy")]);
    let none = HeaderMap::new();
    assert_eq!(status(auth_at(&mut state, &request("/s", &bearer, None), 0)), 200);
    assert_eq!(status(auth_at(&mut state, &request("/s", &key, None), 0)), 200);
    assert_eq!(status(auth_at(&mut state, &request("/s?token=of-ci", &none, None), 0)), 200);
    assert_eq!(status(auth_at(&mut state, &request("/s?token=legacy", &none, None), 0)), 200);
    let refused = answer(auth_at(&mut state, &request("/s?token=bad", &none, None), 0));
    assert_eq!(refused.status, 401);
    assert_eq!(refused.body, "{\"error\":\"Invalid API token\"}");
    assert_eq!(refused.headers.len(), 1);
}

#[test]
fn bearer_token_comes_before_the_others() {
    let mut state = state(WebAuthMode::Token, "legacy");
    let both = headers(&[("authorization", "Bearer bad"), ("x-api-key", "legacy")]);
    assert_eq!(status(auth_at(&mut state, &request("/s?token=of-ci", &both, None), 0)), 401);
    let basic = headers(&[("authorization", "Basic x"), ("x-api-key", "legacy")]);
    assert_eq!(status(auth_at(&mut state, &request("/s?token=bad", &basic, None), 0)), 200);
}

#[test]
fn empty_legacy_key_is_no_key() {
    let mut state = state(WebAuthMode::Token, "");
    let empty = headers(&[("authorization", "Bearer ")]);
    let refused = answer(auth_at(&mut state, &request("/s", &empty, None), 0));
    assert_eq!(refused.body, "{\"error\":\"Invalid API token\"}");
}

#[test]
fn session_cookie_lets_requests_through_until_it_expires() {
    let mut state = state(WebAuthMode::Full, "");
    state.session_store.create_session_at("abc".to_string(), "ip", 0);
    let cookie = headers(&[("cookie", "a=b; openfang_session=abc")]);
    assert_eq!(status(auth_at(&mut state, &request("/s", &cookie, None), 10 * SEC)), 200);
    assert_eq!(status(auth_at(&mut state, &request("/s", &cookie, None), 20 * SEC)), 200);
    assert_eq!(status(auth_at(&mut state, &request("/s", &cookie, None), 30 * SEC + 1)), 401);
    assert_eq!(state.session_store.count(), 0);
}

#[test]
fn live_session_outweighs_a_bad_token() {
    let mut state = state(WebAuthMode::Full, "");
    state.session_store.create_session_at("abc".to_string(), "ip", 0);
    let both = headers(&[
        ("cookie", "openfang_session=abc"),
        ("authorization", "Bearer bad"),
    ]);
    assert_eq!(status(auth_at(&mut state, &request("/s", &both, None), SEC)), 200);
    let stale = headers(&[
        ("cookie", "openfang_session=gone"),
        ("authorization", "Bearer of-ci"),
    ]);
    assert_eq!(status(auth_at(&mut state, &request("/s", &stale, None), SEC)), 200);
    assert_eq!(state.session_store.count(), 1);
}

#[test]
fn accepted_token_leaves_the_session_alone() {
    let mut state = state(WebAuthMode::Full, "legacy");
    state.session_store.create_session_at("abc".to_string(), "ip", 0);
    for token in ["Bearer of-ci", "Bearer legacy"] {
        let both = headers(&[("cookie", "openfang_session=abc"), ("authorization", token)]);
        assert_eq!(status(auth_at(&mut state, &request("/s", &both, None), 9 * SEC)), 200);
        assert_eq!(status(auth_at(&mut state, &request("/s", &both, None), 11 * SEC)), 200);
        assert_eq!(state.session_store.count(), 1);
    }
    assert!(!state.session_store.validate_at("abc", 11 * SEC));
}

#[test]
fn open_path_does_not_touch_the_session() {
    let mut state = state(WebAuthMode::Full, "");
    state.session_store.create_session_at("abc".to_string(), "ip", 0);
    let cookie = headers(&[("cookie", "openfang_session=abc")]);
    assert_eq!(status(auth_at(&mut state, &request("/api/health", &cookie, None), 9 * SEC)), 200);
    assert!(!state.session_store.validate_at("abc", 11 * SEC));
}

#[test]
fn logged_in_client_is_let_through_now() {
    let mut state = state(WebAuthMode::Full, "");
    let id = state.session_store.create_session("1.2.3.4");
    let cookie = headers(&[("cookie", format!("openfang_session={id}").as_str())]);
    let target = || Uri::parse("/s").unwrap();
    let nowhere = |_: &str| None;
    assert_eq!(status(auth(&mut state, target(), &cookie, Some(REMOTE), nowhere)), 200);
    state.session_store.remove(&id);
    assert_eq!(status(auth(&mut state, target(), &cookie, Some(REMOTE), nowhere)), 401);
}

#[test]
fn forwarded_client_is_recognised_by_its_header() {
    let mut state = state(WebAuthMode::Off, "");
    state.auth_config.trust_proxy_headers = true;
    let forwarded = headers(&[("x-forwarded-for", "here, there")]);
    let parse = |text: &str| if text == "here" { Some(LOCAL) } else { Some(REMOTE) };
    let target = || Uri::parse("/s").unwrap();
    assert_eq!(status(auth(&mut state, target(), &forwarded, Some(REMOTE), parse)), 200);
    let none = HeaderMap::new();
    assert_eq!(status(auth(&mut state, target(), &none, Some(REMOTE), parse)), 403);
}

#[test]
fn verdicts_have_their_answers() {
    assert!(matches!(carry_out(Verdict::Forward), AuthOutcome::Forward));
    assert_eq!(status(carry_out(Verdict::NoAuthConfigured)), 403);
    assert_eq!(status(carry_out(Verdict::InvalidToken)), 401);
    assert_eq!(status(carry_out(Verdict::CredentialsRequired(WebAuthMode::Token))), 401);
}

#[test]
fn json_errors_are_escaped() {
    let error = json_error(418, "a \"b\" \\ \n\t\r\u{8}\u{c}\u{1}\u{1f}\u{7f}\u{e9}");
    assert_eq!(error.status, 418);
    assert_eq!(
        error.body,
        "{\"error\":\"a \\\"b\\\" \\\\ \\n\\t\\r\\b\\f\\u0001\\u001f\u{7f}\u{e9}\"}"
    );
    assert_eq!(json_error(500, "").body, "{\"error\":\"\"}");
}

#[test]
fn security_headers_replace_what_was_there() {
    let mut map = headers(&[("x-frame-options", "SAMEORIGIN"), ("server", "x")]);
    map.append("x-frame-options", HeaderValue::from_static("ALLOWALL"));
    assert_eq!(security_headers(&mut map), Ok(()));
    for (name, value) in [
        ("x-content-type-options", "nosniff"),
        ("x-frame-options", "DENY"),
        ("x-xss-protection", "1; mode=block"),
        ("content-security-policy", "default-src 'self'; script-src 'self' 'unsafe-inline' 'unsafe-eval'; style-src 'self' 'unsafe-inline' https://fonts.googleapis.com https://fonts.gstatic.com; img-src 'self' data: blob:; connect-src 'self' ws://localhost:* ws://127.0.0.1:* wss://localhost:* wss://127.0.0.1:*; font-src 'self' https://fonts.gstatic.com; media-src 'self' blob:; frame-src 'self' blob:; object-src 'none'; base-uri 'self'; form-action 'self'"),
        ("referrer-policy", "strict-origin-when-cross-origin"),
        ("cache-control", "no-store, no-cache, must-revalidate"),
        ("server", "x"),
    ] {
        let values: Vec<&str> = map.get_all(name).iter().map(|v| v.to_str().unwrap()).collect();
        assert_eq!(values, vec![value]);
    }
    assert_eq!(map.len(), 7);
    assert_eq!(map["content-security-policy"], CONTENT_SECURITY_POLICY);
    assert_eq!(security_headers(&mut map), Ok(()));
    assert_eq!(map.len(), 7);
}

#[test]
fn headers_with_several_values_keep_them() {
    let mut map = HeaderMap::new();
    for name in ["set-cookie", "x-request-id", "cache-control"] {
        for value in ["a=1", "b=2", "c=3"] {
            map.append(name, HeaderValue::from_static(value));
        }
    }
    assert_eq!(security_headers(&mut map), Ok(()));
    assert_eq!(request_logging(&mut map, "id", "GET", "/", 200, 0).1, Ok(()));
    let cookies: Vec<&str> = map.get_all("set-cookie").iter().map(|v| v.to_str().unwrap()).collect();
    assert_eq!(cookies, vec!["a=1", "b=2", "c=3"]);
    assert_eq!(map.get_all("cache-control").iter().count(), 1);
    let ids: Vec<&HeaderValue> = map.get_all("x-request-id").iter().collect();
    assert_eq!(ids, vec!["id"]);
    let once = map.clone();
    assert_eq!(security_headers(&mut map), Ok(()));
    assert_eq!(map, once);
}

fn full_map() -> HeaderMap {
    let mut map = HeaderMap::new();
    let mut i: u32 = 0;
    loop {
        let name = axum::http::HeaderName::from_bytes(format!("x-{i}").as_bytes()).unwrap();
        if map.try_insert(name, HeaderValue::from_static("v")).is_err() {
            return map;
        }
        i += 1;
    }
}

#[test]
fn full_header_map_is_reported() {
    let mut map = full_map();
    let names = map.keys_len();
    assert!(names > 6553);
    assert_eq!(security_headers(&mut map), Err(HeaderMapFull));
    assert_eq!(map.keys_len(), names);
    let (log, tagged) = request_logging(&mut map, "id", "GET", "/", 200, 0);
    assert_eq!(tagged, Err(HeaderMapFull));
    assert_eq!(log.request_id, "id");
}

#[test]
fn request_ids_are_random_uuids() {
    let a = generate_request_id();
    let b = generate_request_id();
    assert_ne!(a, b);
    assert_eq!(a.len(), 36);
    let bytes = a.as_bytes();
    for (i, c) in bytes.iter().enumerate() {
        if i == 8 || i == 13 || i == 18 || i == 23 {
            assert_eq!(*c, b'-');
        } else {
            assert!(c.is_ascii_digit() || (b'a'..=b'f').contains(c));
        }
    }
    assert_eq!(bytes[14], b'4');
    assert!(b"89ab".contains(&bytes[19]));
}

#[test]
fn responses_carry_the_request_id() {
    let mut map = HeaderMap::new();
    let id = generate_request_id();
    let (log, tagged) = request_logging(&mut map, &id, "GET", "/x", 204, 1_999_999);
    assert_eq!(tagged, Ok(()));
    assert_eq!(map["x-request-id"].to_str().unwrap(), id);
    assert_eq!(log.request_id, id);
    assert_eq!(log.method, "GET");
    assert_eq!(log.path, "/x");
    assert_eq!(log.status, 204);
    assert_eq!(log.latency_ms, 1);
}

#[test]
fn ids_that_are_no_header_value_are_left_out() {
    let mut map = HeaderMap::new();
    let (log, tagged) = request_logging(&mut map, "a\nb", "GET", "/", 200, 0);
    assert_eq!(tagged, Ok(()));
    assert_eq!(map.len(), 0);
    assert_eq!(log.request_id, "a\nb");
    let (_, tagged) = request_logging(&mut map, "\u{e9}", "GET", "/", 200, 0);
    assert_eq!(tagged, Ok(()));
    assert_eq!(map["x-request-id"].as_bytes(), "\u{e9}".as_bytes());
}

#[test]
fn latency_is_kept_in_64_bits() {
    let mut map = HeaderMap::new();
    let (log, _) = request_logging(&mut map, "i", "GET", "/", 200, ((1u128 << 64) + 5) * 1_000_000);
    assert_eq!(log.latency_ms, 5);
}

#[test]
fn texts_are_cut_and_trimmed_by_characters() {
    assert!(same_text("h\u{e9}", "h\u{e9}"));
    assert!(!same_text("h\u{e9}", "h\u{e8}"));
    assert!(!same_text("a", "ab"));
    assert!(starts_with("\u{e9}a", "\u{e9}"));
    assert!(!starts_with("\u{e8}", "\u{e9}"));
    assert!(starts_with("x", ""));
    assert_eq!(strip_prefix("abc", "ab"), Some("c"));
    assert_eq!(strip_prefix("ab", "abc"), None);
    assert_eq!(cut_text("a,b,c", ','), ("a", Some("b,c")));
    assert_eq!(cut_text("\u{e9}", ','), ("\u{e9}", None));
    assert_eq!(cut_text(",", ','), ("", Some("")));
    assert_eq!(trim_text(" \t a b\t "), "a b");
    assert_eq!(trim_text(" \t"), "");
    assert_eq!(trim_text(""), "");
}
