use axum::http::{HeaderMap, HeaderValue};
use openfang_web_auth::clock::{since, whole_secs, Clock, MAX_NANOS};
use openfang_web_auth::extract::session_id_in;
use openfang_web_auth::passwords::{
    hash_password_with_salt, is_accepted, report_hashing, too_many_lanes,
};
use openfang_web_auth::random::to_hex;
use openfang_web_auth::tokens::{add_generated_token, api_token_from, AUTO_GENERATED};
use openfang_web_auth::web_auth::{
    choose_client_ip, constant_time_eq, effective_auth_mode, extract_api_key_header, extract_bearer_token,
    extract_client_ip, extract_query_token, extract_session_cookie, generate_api_token,
    hash_password, hash_token, mask_token, maybe_auto_generate_token, proxy_texts, read_proxy_ips,
    validate_token,
    verify_password, IpAddr, LoginRateLimiter, ProxyIps, Session, SessionStore, Uri,
    WebAuthConfig, WebAuthMode, WebAuthToken, SESSION_COOKIE,
};

const SEC: u128 = 1_000_000_000;

fn token(name: &str, token: &str) -> WebAuthToken {
    WebAuthToken {
        name: name.to_string(),
        token: token.to_string(),
        created_at: String::new(),
    }
}

fn headers(fields: &[(&'static str, &'static str)]) -> HeaderMap {
    let mut map = HeaderMap::new();
    for (name, value) in fields {
        map.append(*name, HeaderValue::from_static(value));
    }
    map
}

fn is_lower_hex(text: &str) -> bool {
    text.chars()
        .all(|c| c.is_ascii_digit() || ('a'..='f').contains(&c))
}

#[test]
fn test_generate_api_token() {
    let token = generate_api_token();
    assert!(token.starts_with("of-"));
    assert_eq!(token.len(), 3 + 48);
}

#[test]
fn test_constant_time_eq() {
    assert!(constant_time_eq("hello", "hello"));
    assert!(!constant_time_eq("hello", "world"));
    assert!(!constant_time_eq("hello", "hell"));
}

#[test]
fn test_password_hash_verify() {
    let hash = hash_password("test-password-123").unwrap();
    assert!(verify_password("test-password-123", &hash));
    assert!(!verify_password("wrong-password", &hash));
}

#[test]
fn test_validate_token() {
    let config = WebAuthConfig {
        mode: WebAuthMode::Token,
        tokens: vec![
            WebAuthToken {
                name: "test".to_string(),
                token: "of-abc123".to_string(),
                created_at: String::new(),
            },
            WebAuthToken {
                name: "ci".to_string(),
                token: "of-xyz789".to_string(),
                created_at: String::new(),
            },
        ],
        ..Default::default()
    };
    assert_eq!(validate_token("of-abc123", &config), Some("test".to_string()));
    assert_eq!(validate_token("of-xyz789", &config), Some("ci".to_string()));
    assert_eq!(validate_token("of-wrong", &config), None);
}

#[test]
fn test_session_store() {
    let mut store = SessionStore::new(3600);
    let session_id = store.create_session("127.0.0.1");
    assert!(store.validate(&session_id));
    assert!(!store.validate("nonexistent"));
    assert_eq!(store.count(), 1);
    store.remove(&session_id);
    assert!(!store.validate(&session_id));
    assert_eq!(store.count(), 0);
}

#[test]
fn test_effective_auth_mode() {
    let config = WebAuthConfig::default();
    assert_eq!(effective_auth_mode(&config, ""), WebAuthMode::Off);
    assert_eq!(effective_auth_mode(&config, "some-key"), WebAuthMode::Token);
    let config = WebAuthConfig {
        mode: WebAuthMode::Full,
        ..Default::default()
    };
    assert_eq!(effective_auth_mode(&config, ""), WebAuthMode::Full);
}

#[test]
fn test_login_rate_limiter() {
    let mut limiter = LoginRateLimiter::new(3, 300);
    assert!(limiter.is_locked_out("1.2.3.4").is_none());
    assert!(!limiter.record_failure("1.2.3.4"));
    assert!(!limiter.record_failure("1.2.3.4"));
    assert!(limiter.record_failure("1.2.3.4"));
    assert!(limiter.is_locked_out("1.2.3.4").is_some());
    assert!(limiter.is_locked_out("5.6.7.8").is_none());
    limiter.clear("1.2.3.4");
    assert!(limiter.is_locked_out("1.2.3.4").is_none());
}

#[test]
fn test_login_rate_limiter_disabled() {
    let mut limiter = LoginRateLimiter::new(0, 300);
    for _ in 0..100 {
        assert!(!limiter.record_failure("1.2.3.4"));
    }
    assert!(limiter.is_locked_out("1.2.3.4").is_none());
}

#[test]
fn test_mask_token() {
    assert_eq!(mask_token("of-abcdef1234567890abcdef"), "of-abc...cdef");
    assert_eq!(mask_token("short"), "***");
}

#[test]
fn test_auto_generate_token() {
    let mut config = WebAuthConfig::default();
    assert!(maybe_auto_generate_token(&mut config).is_none());

    let mut config = WebAuthConfig {
        mode: WebAuthMode::Token,
        auto_generate_token: true,
        ..Default::default()
    };
    let token = maybe_auto_generate_token(&mut config);
    assert!(token.is_some());
    assert_eq!(config.tokens.len(), 1);
    assert!(maybe_auto_generate_token(&mut config).is_none());
}

#[test]
fn tokens_are_random_hex() {
    let a = generate_api_token();
    let b = generate_api_token();
    assert_ne!(a, b);
    assert!(is_lower_hex(&a[3..]));
    assert_eq!(api_token_from(&[0x00, 0x1f, 0xa0, 0xff]), "of-001fa0ff");
    assert_eq!(api_token_from(&[]), "of-");
}

#[test]
fn hex_is_lower_case_and_high_half_first() {
    assert_eq!(to_hex(&[1, 2, 3, 15, 16, 0xab]), "0102030f10ab");
    assert_eq!(to_hex(&[]), "");
}

#[test]
fn equality_is_by_all_bytes() {
    assert!(constant_time_eq("", ""));
    assert!(!constant_time_eq("", "a"));
    assert!(!constant_time_eq("abcdef", "abcdeg"));
    assert!(constant_time_eq("schl\u{fc}ssel", "schl\u{fc}ssel"));
    assert!(!constant_time_eq("\u{e9}", "e\u{301}"));
}

#[test]
fn first_matching_token_names_the_client() {
    let config = WebAuthConfig {
        tokens: vec![token("one", "same"), token("two", "same"), token("none", "")],
        ..Default::default()
    };
    assert_eq!(validate_token("same", &config), Some("one".to_string()));
    assert_eq!(validate_token("", &config), Some("none".to_string()));
    assert_eq!(validate_token("sam", &config), None);
    assert_eq!(validate_token("x", &WebAuthConfig::default()), None);
}

#[test]
fn generated_token_is_accepted_and_made_once() {
    let mut config = WebAuthConfig {
        mode: WebAuthMode::Full,
        auto_generate_token: true,
        protect_dashboard: true,
        ..Default::default()
    };
    let made = maybe_auto_generate_token(&mut config).unwrap();
    assert_eq!(made.name, "auto-generated");
    assert!(made.created_at.ends_with("+00:00"));
    assert!(made.created_at.len() >= 25);
    assert_eq!(&made.created_at[10..11], "T");
    assert_eq!(config.tokens[0].token, made.token);
    assert_eq!(validate_token(&made.token, &config), Some(AUTO_GENERATED.to_string()));
    assert!(config.protect_dashboard);
    assert_eq!(mask_token(&made.token).len(), 6 + 3 + 4);
}

#[test]
fn no_token_is_made_unasked() {
    let mut off = WebAuthConfig {
        auto_generate_token: true,
        ..Default::default()
    };
    assert!(add_generated_token(&mut off, "t".to_string(), "now".to_string()).is_none());
    assert_eq!(off.tokens.len(), 0);
    let mut has_one = WebAuthConfig {
        mode: WebAuthMode::Token,
        auto_generate_token: true,
        tokens: vec![token("a", "b")],
        ..Default::default()
    };
    assert!(add_generated_token(&mut has_one, "t".to_string(), "now".to_string()).is_none());
    assert_eq!(has_one.tokens.len(), 1);
    let mut wanted = WebAuthConfig {
        mode: WebAuthMode::Token,
        auto_generate_token: true,
        ..Default::default()
    };
    let added = add_generated_token(&mut wanted, "t".to_string(), "now".to_string()).unwrap();
    assert_eq!(added.token, "t");
    assert_eq!(added.created_at, "now");
}

#[test]
fn masks_count_characters() {
    assert_eq!(mask_token("0123456789"), "***");
    assert_eq!(mask_token("0123456789a"), "012345...789a");
    assert_eq!(mask_token(""), "***");
    assert_eq!(mask_token(&"\u{e9}".repeat(10)), "***");
    assert_eq!(mask_token("a\u{e9}bcdefgh\u{e8}"), "***");
    assert_eq!(mask_token("a\u{e9}bcdefghij\u{e8}"), "a\u{e9}bcde...hij\u{e8}");
    assert_eq!(mask_token("012345-secret-6789"), mask_token("012345-other-6789"));
}

#[test]
fn token_hash_is_sha256_in_hex() {
    assert_eq!(
        hash_token("abc"),
        "ba7816bf8f01cfea414140de5dae2223b00361a396177a9cb410ff61f20015ad"
    );
    assert_eq!(
        hash_token(""),
        "e3b0c44298fc1c149afbf4c8996fb92427ae41e4649b934ca495991b7852b855"
    );
}

#[test]
fn password_hashes_are_salted() {
    let a = hash_password("pw").unwrap();
    let b = hash_password("pw").unwrap();
    assert_ne!(a, b);
    assert!(a.starts_with("$argon2id$"));
    assert!(verify_password("pw", &a));
    assert!(verify_password("pw", &b));
    assert!(!verify_password("", &a));
}

#[test]
fn hashes_hold_their_algorithm_and_salt() {
    let salt = "AAECAwQFBgcICQoLDA0ODw";
    let hash = hash_password_with_salt("pw", salt).unwrap();
    assert!(hash.starts_with(&format!("$argon2id$v=19$m=19456,t=2,p=1${salt}$")));
    assert_eq!(hash.len(), 31 + 22 + 1 + 43);
    let other_salt = hash_password_with_salt("pw", "AAECAwQFBgcICQoLDA0ODg").unwrap();
    assert_ne!(hash, other_salt);
    assert!(verify_password("pw", &hash) && verify_password("pw", &other_salt));
    assert!(!verify_password("pw ", &hash));
    assert_ne!(hash_password_with_salt("pw ", salt).unwrap(), hash);
}

#[test]
fn hashes_that_ask_for_too_many_lanes_match_nothing() {
    let start = "$argon2id$v=19$m=19456,t=2,p=";
    let end = format!("$AAECAwQFBgcICQoLDA0ODw${}", "A".repeat(43));
    for lanes in ["100000000", "536870912", "4294967295", "99999999999", "000000001", "123456789x"] {
        let hash = format!("{start}{lanes}{end}");
        assert!(too_many_lanes(&hash), "{}", hash);
        assert!(!verify_password("pw", &hash), "{}", hash);
    }
    for lanes in ["99999999", "16777216", "0", "", "x"] {
        let hash = format!("{start}{lanes}{end}");
        assert!(!too_many_lanes(&hash), "{}", hash);
        assert!(!verify_password("pw", &hash), "{}", hash);
    }
    assert!(too_many_lanes("$p=123456789"));
    assert!(!too_many_lanes("$p=12345678"));
    assert!(!too_many_lanes("xp=123456789"));
    assert!(!too_many_lanes("p="));
}

#[test]
fn last_number_of_lanes_counts() {
    let hash = hash_password("pw").unwrap();
    assert!(!too_many_lanes(&hash));
    let corrected = hash.replace(",p=1$", ",p=999999999,p=1$");
    assert!(!too_many_lanes(&corrected));
    assert!(verify_password("pw", &corrected));
    let spoiled = hash.replace(",p=1$", ",p=1,p=999999999$");
    assert!(too_many_lanes(&spoiled));
    assert!(!verify_password("pw", &spoiled));
}

#[test]
fn answer_to_a_failure_is_the_lockout() {
    for max in [0, 1, 2, 5] {
        let mut limiter = LoginRateLimiter::new(max, 3);
        for i in 0..8 {
            let now = i * SEC;
            let locked = limiter.record_failure_at("ip", now);
            assert_eq!(locked, limiter.is_locked_out_at("ip", now).is_some());
        }
    }
}

#[test]
fn session_without_time_expires_now() {
    let mut store = SessionStore::new(0);
    let id = store.create_session("ip");
    while store.validate(&id) {}
    assert_eq!(store.count(), 0);
}

#[test]
fn hash_depends_on_password_and_salt_alone() {
    let salt = "AAAAAAAAAAAAAAAAAAAAAA";
    let a = hash_password_with_salt("pw", salt).unwrap();
    let b = hash_password_with_salt("pw", salt).unwrap();
    assert_eq!(a, b);
    assert!(a.contains(salt));
    assert_ne!(a, hash_password_with_salt("pw", "AAAAAAAAAAAAAAAAAAAAAw").unwrap());
    assert!(verify_password("pw", &a));
}

#[test]
fn bad_salt_is_reported() {
    let error = hash_password_with_salt("pw", "!").unwrap_err();
    assert!(error.starts_with("Password hashing failed: "));
    assert!(error.len() > "Password hashing failed: ".len());
    assert_eq!(
        report_hashing(Err("why".to_string())),
        Err("Password hashing failed: why".to_string())
    );
    assert_eq!(report_hashing(Ok("h".to_string())), Ok("h".to_string()));
}

#[test]
fn unreadable_hash_matches_no_password() {
    assert!(!verify_password("pw", "not a hash"));
    assert!(!verify_password("pw", ""));
    assert!(is_accepted(Some(true)));
    assert!(!is_accepted(Some(false)));
    assert!(!is_accepted(None));
}

#[test]
fn clock_counts_from_its_start() {
    let first = Clock::start();
    let mut second = Clock::start();
    while first.reading_at(&second) == 0 {
        second = Clock::start();
    }
    let gap = first.reading_at(&second);
    assert_eq!(first.reading_at(&second), gap);
    assert_eq!(second.reading_at(&first), 0);
    assert_eq!(first.reading_at(&first), 0);
    assert!(first.now() >= gap);
}

#[test]
fn clock_goes_forward() {
    let clock = Clock::start();
    let a = clock.now();
    let b = clock.now();
    assert!(a <= b);
    assert!(b <= MAX_NANOS);
    assert_eq!(since(3, 10), 7);
    assert_eq!(since(10, 3), 0);
    assert_eq!(whole_secs(2_999_999_999), 2);
    assert_eq!(whole_secs(MAX_NANOS), u64::MAX);
}

fn session(last_used: u128, timeout: u128) -> Session {
    Session {
        id: "id".to_string(),
        created_at: 0,
        last_used,
        created_from: "ip".to_string(),
        timeout,
        clock: Clock::start(),
    }
}

#[test]
fn session_expires_after_its_timeout() {
    let s = session(100, 50);
    assert!(!s.is_expired_at(100));
    assert!(!s.is_expired_at(150));
    assert!(s.is_expired_at(151));
    assert!(!s.is_expired_at(0));
    assert!(!session(0, 3600 * SEC).is_expired());
}

#[test]
fn touch_restarts_the_timeout() {
    let mut s = session(100, 50);
    s.touch_at(151);
    assert_eq!(s.last_used, 151);
    assert_eq!(s.created_at, 0);
    assert!(!s.is_expired_at(201));
    assert!(s.is_expired_at(202));
    let mut fresh = session(0, 0);
    while fresh.clock.now() == 0 {}
    fresh.touch();
    assert!(fresh.last_used > 0);
    while fresh.clock.now() == fresh.last_used {}
    assert!(fresh.is_expired());
}

#[test]
fn store_keeps_a_session_alive_by_use() {
    let mut store = SessionStore::new(10);
    store.create_session_at("abc".to_string(), "ip", 5 * SEC);
    assert!(store.validate_at("abc", 15 * SEC));
    assert!(store.validate_at("abc", 25 * SEC));
    assert!(!store.validate_at("abc", 35 * SEC + 1));
    assert_eq!(store.count(), 0);
    assert!(!store.validate_at("abc", 25 * SEC));
}

#[test]
fn sessions_do_not_affect_each_other() {
    let mut store = SessionStore::new(10);
    store.create_session_at("a".to_string(), "ip", 0);
    store.create_session_at("b".to_string(), "ip", 0);
    assert!(store.validate_at("a", 10 * SEC));
    assert!(!store.validate_at("b", 11 * SEC));
    assert!(store.validate_at("a", 11 * SEC));
    store.remove("b");
    assert_eq!(store.count(), 1);
}

#[test]
fn session_ids_are_random_hex() {
    let mut store = SessionStore::new(10);
    let a = store.create_session("ip");
    let b = store.create_session("ip");
    assert_ne!(a, b);
    assert_eq!(a.len(), 64);
    assert!(is_lower_hex(&a));
    assert_eq!(store.count(), 2);
}

#[test]
fn listing_shows_live_sessions_and_drops_the_others() {
    let mut store = SessionStore::new(10);
    store.create_session_at("0123456789".to_string(), "1.1.1.1", SEC);
    store.create_session_at("short".to_string(), "2.2.2.2", 3 * SEC);
    store.create_session_at("old".to_string(), "3.3.3.3", 0);
    assert!(store.validate_at("0123456789", 4 * SEC));
    let mut infos = store.active_sessions_at(11 * SEC + 500_000_000);
    infos.sort_by(|a, b| a.id_prefix.cmp(&b.id_prefix));
    assert_eq!(infos.len(), 2);
    assert_eq!(infos[0].id_prefix, "01234567");
    assert_eq!(infos[0].created_from, "1.1.1.1");
    assert_eq!(infos[0].age_secs, 10);
    assert_eq!(infos[0].idle_secs, 7);
    assert_eq!(infos[1].id_prefix, "short");
    assert_eq!(infos[1].age_secs, 8);
    assert_eq!(infos[1].idle_secs, 8);
    assert_eq!(store.count(), 2);
    assert_eq!(store.active_sessions_at(11 * SEC + 500_000_000).len(), 2);
    assert!(!store.validate_at("old", 0));
}

#[test]
fn listing_now_shows_new_sessions() {
    let mut store = SessionStore::new(3600);
    let id = store.create_session("9.9.9.9");
    let infos = store.active_sessions();
    assert_eq!(infos.len(), 1);
    assert_eq!(infos[0].id_prefix, id[..8].to_string());
    assert_eq!(infos[0].created_from, "9.9.9.9");
    assert_eq!(infos[0].clone().id_prefix, infos[0].id_prefix);
}

#[test]
fn clearing_the_store_counts_what_was_there() {
    let mut store = SessionStore::new(10);
    store.create_session("ip");
    store.create_session("ip");
    assert_eq!(store.clear_all(), 2);
    assert_eq!(store.count(), 0);
    assert_eq!(store.clear_all(), 0);
}

#[test]
fn lockout_lasts_as_configured() {
    let mut limiter = LoginRateLimiter::new(2, 300);
    assert!(!limiter.record_failure_at("ip", SEC));
    assert_eq!(limiter.is_locked_out_at("ip", SEC), None);
    assert!(limiter.record_failure_at("ip", 2 * SEC));
    assert_eq!(limiter.is_locked_out_at("ip", 2 * SEC), Some(301));
    assert_eq!(limiter.is_locked_out_at("ip", 2 * SEC + 1), Some(300));
    assert_eq!(limiter.is_locked_out_at("ip", 302 * SEC - 1), Some(1));
    assert_eq!(limiter.is_locked_out_at("ip", 302 * SEC), None);
    assert_eq!(limiter.failed_count("ip"), 2);
    assert!(limiter.record_failure_at("ip", 400 * SEC));
    assert_eq!(limiter.is_locked_out_at("ip", 699 * SEC), Some(2));
}

#[test]
fn clearing_an_address_forgets_its_failures() {
    let mut limiter = LoginRateLimiter::new(2, 300);
    limiter.record_failure_at("a", 0);
    limiter.record_failure_at("b", 0);
    limiter.clear("a");
    assert_eq!(limiter.failed_count("a"), 0);
    assert_eq!(limiter.failed_count("b"), 1);
    assert!(!limiter.record_failure_at("a", 0));
    assert!(limiter.record_failure_at("b", 0));
}

#[test]
fn longest_lockout_is_reported_as_far_as_it_can_be() {
    let mut limiter = LoginRateLimiter::new(1, u64::MAX);
    assert!(limiter.record_failure_at("ip", 0));
    assert_eq!(limiter.is_locked_out_at("ip", 0), Some(u64::MAX));
    assert_eq!(limiter.is_locked_out_at("ip", 1), Some(u64::MAX));
    assert_eq!(limiter.is_locked_out_at("ip", SEC + 1), Some(u64::MAX - 1));
}

#[test]
fn lockout_of_no_time_is_none() {
    let mut limiter = LoginRateLimiter::new(1, 0);
    assert!(limiter.record_failure_at("ip", 7));
    assert_eq!(limiter.is_locked_out_at("ip", 7), None);
}

#[test]
fn bearer_tokens() {
    assert_eq!(extract_bearer_token(&headers(&[("authorization", "Bearer abc")])), Some("abc"));
    assert_eq!(extract_bearer_token(&headers(&[("authorization", "Bearer ")])), Some(""));
    assert_eq!(extract_bearer_token(&headers(&[("authorization", "bearer abc")])), None);
    assert_eq!(extract_bearer_token(&headers(&[("authorization", "Bearer")])), None);
    assert_eq!(extract_bearer_token(&headers(&[("x-other", "Bearer abc")])), None);
    assert_eq!(
        extract_bearer_token(&headers(&[("authorization", "Bearer a"), ("authorization", "Bearer b")])),
        Some("a")
    );
}

#[test]
fn header_values_must_be_visible_ascii() {
    let mut map = HeaderMap::new();
    map.insert("x-api-key", HeaderValue::from_bytes(b"caf\xc3\xa9").unwrap());
    assert_eq!(extract_api_key_header(&map), None);
    map.insert("x-api-key", HeaderValue::from_bytes(b"a\tb").unwrap());
    assert_eq!(extract_api_key_header(&map), Some("a\tb"));
    assert_eq!(extract_api_key_header(&HeaderMap::new()), None);
}

fn query_token(target: &str) -> Option<String> {
    let uri = Uri::parse(target).unwrap();
    extract_query_token(&uri).map(|token| token.to_string())
}

#[test]
fn query_tokens() {
    assert_eq!(query_token("/x?token=abc"), Some("abc".to_string()));
    assert_eq!(query_token("/x?a=1&token=abc&token=def"), Some("abc".to_string()));
    assert_eq!(query_token("/x?a=1&xtoken=abc"), None);
    assert_eq!(query_token("/x?token=a=b"), Some("a=b".to_string()));
    assert_eq!(query_token("/x?token="), Some(String::new()));
    assert_eq!(query_token("/x?&&token=z"), Some("z".to_string()));
    assert_eq!(query_token("/x?"), None);
    assert_eq!(query_token("/x"), None);
    assert_eq!(query_token("http://host/p?token=q"), Some("q".to_string()));
}

#[test]
fn uris_have_a_path_and_a_query() {
    let uri = Uri::parse("http://example.com/a/b?c=d").unwrap();
    assert_eq!(uri.path, "/a/b");
    assert_eq!(uri.query, Some("c=d".to_string()));
    let root = Uri::parse("http://example.com").unwrap();
    assert_eq!(root.path, "/");
    assert_eq!(root.query, None);
    assert!(Uri::parse("not a uri").is_none());
}

#[test]
fn session_cookies() {
    assert_eq!(SESSION_COOKIE, "openfang_session");
    let cookie = |value: &'static str| extract_session_cookie(&headers(&[("cookie", value)]));
    assert_eq!(cookie("openfang_session=abc"), Some("abc".to_string()));
    assert_eq!(cookie("a=b; openfang_session=abc; c=d"), Some("abc".to_string()));
    assert_eq!(cookie("a=b;\topenfang_session=abc \t;c=d"), Some("abc".to_string()));
    assert_eq!(cookie("openfang_session=x;openfang_session=y"), Some("x".to_string()));
    assert_eq!(cookie("openfang_session"), None);
    assert_eq!(cookie("Openfang_session=abc"), None);
    assert_eq!(cookie("openfang_session="), Some(String::new()));
    assert_eq!(extract_session_cookie(&HeaderMap::new()), None);
    assert_eq!(session_id_in(""), None);
    assert_eq!(session_id_in(";;;"), None);
}

#[test]
fn proxies_name_the_client() {
    let map = headers(&[
        ("cf-connecting-ip", "1.1.1.1"),
        ("x-real-ip", " 2.2.2.2"),
        ("x-forwarded-for", " 3.3.3.3 , 4.4.4.4"),
    ]);
    let texts = proxy_texts(&map);
    assert_eq!(texts.cf_connecting_ip, Some("1.1.1.1"));
    assert_eq!(texts.x_real_ip, Some(" 2.2.2.2"));
    assert_eq!(texts.x_forwarded_for, Some("3.3.3.3"));
    let none = HeaderMap::new();
    let texts = proxy_texts(&none);
    assert_eq!(texts.cf_connecting_ip, None);
    assert_eq!(texts.x_real_ip, None);
    assert_eq!(texts.x_forwarded_for, None);
    let empty = headers(&[("x-forwarded-for", "")]);
    assert_eq!(proxy_texts(&empty).x_forwarded_for, Some(""));
}

#[test]
fn client_ip_follows_trust() {
    let all = ProxyIps {
        cf_connecting_ip: Some(IpAddr::V4(1)),
        x_real_ip: Some(IpAddr::V4(2)),
        x_forwarded_for: Some(IpAddr::V4(3)),
    };
    let no_cf = ProxyIps { cf_connecting_ip: None, ..all };
    let only_forwarded = ProxyIps { x_real_ip: None, ..no_cf };
    let nothing = ProxyIps { x_forwarded_for: None, ..only_forwarded };
    let peer = Some(IpAddr::V6(9));
    assert_eq!(choose_client_ip(&all, peer, true), IpAddr::V4(1));
    assert_eq!(choose_client_ip(&no_cf, peer, true), IpAddr::V4(2));
    assert_eq!(choose_client_ip(&only_forwarded, peer, true), IpAddr::V4(3));
    assert_eq!(choose_client_ip(&nothing, peer, true), IpAddr::V6(9));
    assert_eq!(choose_client_ip(&all, peer, false), IpAddr::V6(9));
    assert_eq!(choose_client_ip(&all, None, false), IpAddr::V4(0));
}

fn parse(text: &str) -> Option<IpAddr> {
    match text {
        "1.1.1.1" => Some(IpAddr::V4(0x0101_0101)),
        "3.3.3.3" => Some(IpAddr::V4(0x0303_0303)),
        "9.9.9.9" => Some(IpAddr::V4(0x0909_0909)),
        "::1" => Some(IpAddr::V6(1)),
        _ => None,
    }
}

#[test]
fn client_ip_is_read_from_the_headers() {
    let peer = parse("9.9.9.9");
    let map = headers(&[
        ("cf-connecting-ip", "1.1.1.1"),
        ("x-real-ip", "::1"),
        ("x-forwarded-for", " 3.3.3.3 , 4.4.4.4"),
    ]);
    assert_eq!(extract_client_ip(&map, peer, true, parse), IpAddr::V4(0x0101_0101));
    assert_eq!(extract_client_ip(&map, peer, false, parse), IpAddr::V4(0x0909_0909));
    let unreadable = headers(&[
        ("cf-connecting-ip", "1.1.1.1 "),
        ("x-real-ip", "somewhere"),
        ("x-forwarded-for", " 3.3.3.3 , 4.4.4.4"),
    ]);
    assert_eq!(extract_client_ip(&unreadable, peer, true, parse), IpAddr::V4(0x0303_0303));
    assert_eq!(read_proxy_ips(&map, parse).x_real_ip, Some(IpAddr::V6(1)));
    assert_eq!(extract_client_ip(&HeaderMap::new(), None, true, parse), IpAddr::V4(0));
}

#[test]
fn loopback_addresses() {
    assert!(IpAddr::V4(0x7f00_0001).is_loopback());
    assert!(IpAddr::V4(0x7f00_0000).is_loopback());
    assert!(IpAddr::V4(0x7fff_ffff).is_loopback());
    assert!(!IpAddr::V4(0x7eff_ffff).is_loopback());
    assert!(!IpAddr::V4(0x8000_0000).is_loopback());
    assert!(!IpAddr::V4(0).is_loopback());
    assert!(IpAddr::V6(1).is_loopback());
    assert!(!IpAddr::V6(0).is_loopback());
    assert!(!IpAddr::V6(0xffff_7f00_0001).is_loopback());
}

#[test]
fn legacy_key_counts_only_without_a_mode() {
    let config = WebAuthConfig {
        mode: WebAuthMode::Full,
        ..Default::default()
    };
    assert_eq!(effective_auth_mode(&config, "key"), WebAuthMode::Full);
    assert_eq!(WebAuthMode::Off.name(), "none");
    assert_eq!(WebAuthMode::Token.name(), "token");
    assert_eq!(WebAuthMode::Full.name(), "full");
}
