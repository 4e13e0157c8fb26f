//! API tokens: making, comparing, looking up, masking and hashing them.

use crate::config::{WebAuthConfig, WebAuthMode, WebAuthToken};
use crate::random;
use crate::random::{random_bytes, to_hex};
use crate::text;
use chrono::Utc;
use sha2::{Digest, Sha256};
use subtle::ConstantTimeEq;
use vstd::prelude::*;
use vstd::string::*;
use vstd::utf8::*;

verus! {

/// What every generated token starts with.
pub const TOKEN_PREFIX: &'static str = "of-";

/// The name of a token that was made at startup.
pub const AUTO_GENERATED: &'static str = "auto-generated";

/// Whether a text has the shape of a generated API token: the prefix and 48
/// hexadecimal digits.
pub open spec fn is_api_token(token: Seq<char>) -> bool {
    text::after_prefix(token, TOKEN_PREFIX@) matches Some(rest) && random::is_hex(rest, 48)
}

/// The API token made from some random bytes.
pub fn api_token_from(bytes: &[u8]) -> (token: String)
    ensures
        token@ == TOKEN_PREFIX@ + random::hex_text(bytes@),
{
    TOKEN_PREFIX.to_owned().concat(to_hex(bytes).as_str())
}

/// A fresh random API token.
pub fn generate_api_token() -> (token: String)
    ensures
        is_api_token(token@),
{
    let bytes = random_bytes(24);
    let token = api_token_from(bytes.as_slice());
    proof {
        let digits = random::hex_text(bytes@);
        random::lemma_hex_text(bytes@);
        assert(token@.skip(TOKEN_PREFIX@.len() as int) =~= digits);
        assert(TOKEN_PREFIX@.is_prefix_of(token@));
    }
    token
}

/// Calls `ct_eq` of the `subtle` crate on two byte slices: whether they are
/// equal. Its running time is not spoken of.
#[verifier::external_body]
fn bytes_ct_eq(a: &[u8], b: &[u8]) -> (equal: bool)
    ensures
        equal == (a@ == b@),
{
    a.ct_eq(b).into()
}

/// Whether two texts are equal, in a time that does not depend on where texts
/// of equal length differ.
pub fn constant_time_eq(a: &str, b: &str) -> (equal: bool)
    ensures
        equal == (a@ == b@),
{
    let x = a.as_bytes();
    let y = b.as_bytes();
    if x.len() != y.len() {
        return false;
    }
    proof {
        if a.spec_bytes() == b.spec_bytes() {
            text::lemma_utf8_injective(a@, b@);
        }
    }
    bytes_ct_eq(x, y)
}

/// The name of the first of some tokens that equals `token`.
pub open spec fn matching_name(tokens: Seq<WebAuthToken>, token: Seq<char>) -> Option<Seq<char>>
    decreases tokens.len(),
{
    if tokens.len() == 0 {
        None
    } else if tokens[0].token@ == token {
        Some(tokens[0].name@)
    } else {
        matching_name(tokens.drop_first(), token)
    }
}

/// The name of the first configured token that equals `request_token`.
pub fn validate_token(request_token: &str, config: &WebAuthConfig) -> (name: Option<String>)
    ensures
        text::view_string(name) == matching_name(config.tokens@, request_token@),
{
    let mut i: usize = 0;
    assert(config.tokens@.skip(0) =~= config.tokens@);
    while i < config.tokens.len()
        invariant
            i <= config.tokens@.len(),
            matching_name(config.tokens@, request_token@) == matching_name(
                config.tokens@.skip(i as int),
                request_token@,
            ),
        decreases config.tokens@.len() - i,
    {
        assert(config.tokens@.skip(i as int).drop_first() =~= config.tokens@.skip(i + 1));
        if constant_time_eq(request_token, config.tokens[i].token.as_str()) {
            return Some(config.tokens[i].name.clone());
        }
        i += 1;
    }
    None
}

/// Whether a text looks like a time in UTC: at least a date and a time of day,
/// then a zero offset.
pub open spec fn is_utc_time(time: Seq<char>) -> bool {
    &&& time.len() >= 25
    &&& time.skip(time.len() - 6) == "+00:00"@
}

/// Calls `Utc::now` and `to_rfc3339` of the `chrono` crate. The time is the
/// machine's: all that is claimed is that a date and a time of day stand
/// before the offset of UTC.
#[verifier::external_body]
fn utc_now() -> (time: String)
    ensures
        is_utc_time(time@),
{
    Utc::now().to_rfc3339()
}

/// Whether a token is to be made at startup.
pub open spec fn wants_token(config: WebAuthConfig) -> bool {
    config.auto_generate_token && config.tokens@.len() == 0 && config.mode != WebAuthMode::Off
}

/// Whether a token is to be made at startup.
fn is_token_wanted(config: &WebAuthConfig) -> (wanted: bool)
    ensures
        wanted == wants_token(*config),
{
    config.auto_generate_token && config.tokens.len() == 0 && config.mode != WebAuthMode::Off
}

/// Adds a token made at startup to the settings, if one is to be made.
pub fn add_generated_token(
    config: &mut WebAuthConfig,
    token: String,
    created_at: String,
) -> (added: Option<WebAuthToken>)
    ensures
        added is Some <==> wants_token(*old(config)),
        added is None ==> *final(config) == *old(config),
        added matches Some(t) ==> {
            &&& t.name@ == AUTO_GENERATED@
            &&& t.token@ == token@
            &&& t.created_at@ == created_at@
            &&& final(config).tokens@ == seq![t]
            &&& final(config).mode == old(config).mode
            &&& final(config).auto_generate_token == old(config).auto_generate_token
            &&& final(config).protect_dashboard == old(config).protect_dashboard
            &&& final(config).trust_proxy_headers == old(config).trust_proxy_headers
        },
{
    if !is_token_wanted(config) {
        return None;
    }
    let auth_token = WebAuthToken { name: AUTO_GENERATED.to_owned(), token, created_at };
    config.tokens.push(auth_token.clone());
    assert(config.tokens@ =~= seq![auth_token]);
    Some(auth_token)
}

/// Makes a token at startup, if the settings ask for one and there is none.
pub fn maybe_auto_generate_token(config: &mut WebAuthConfig) -> (added: Option<WebAuthToken>)
    ensures
        added is Some <==> wants_token(*old(config)),
        added is None ==> *final(config) == *old(config),
        added matches Some(t) ==> {
            &&& t.name@ == AUTO_GENERATED@
            &&& is_api_token(t.token@)
            &&& is_utc_time(t.created_at@)
            &&& final(config).tokens@ == seq![t]
            &&& final(config).mode == old(config).mode
            &&& final(config).auto_generate_token == old(config).auto_generate_token
            &&& final(config).protect_dashboard == old(config).protect_dashboard
            &&& final(config).trust_proxy_headers == old(config).trust_proxy_headers
        },
{
    if !is_token_wanted(config) {
        return None;
    }
    let token = generate_api_token();
    let created_at = utc_now();
    add_generated_token(config, token, created_at)
}

/// How many characters of a token are shown at its start.
pub const SHOWN_AT_START: usize = 6;

/// How many characters of a token are shown at its end.
pub const SHOWN_AT_END: usize = 4;

/// What is shown of a token: its first six and last four characters, or nothing
/// of a token that has no others.
pub open spec fn masked(token: Seq<char>) -> Seq<char> {
    if token.len() <= SHOWN_AT_START + SHOWN_AT_END {
        "***"@
    } else {
        token.take(SHOWN_AT_START as int) + "..."@ + token.skip(token.len() - SHOWN_AT_END)
    }
}

/// Masks a token for logging.
pub fn mask_token(token: &str) -> (shown: String)
    ensures
        shown@ == masked(token@),
{
    let len: usize = token.unicode_len();
    if len <= SHOWN_AT_START + SHOWN_AT_END {
        return "***".to_owned();
    }
    let head = token.substring_char(0, SHOWN_AT_START);
    let tail = token.substring_char(len - SHOWN_AT_END, len);
    head.to_owned().concat("...").concat(tail)
}

/// The SHA-256 digest of some bytes.
pub uninterp spec fn sha256_digest(bytes: Seq<u8>) -> Seq<u8>;

/// Runs `Sha256::new`, `update` and `finalize` of the `sha2` crate: the digest
/// depends on the bytes alone and is 32 bytes long.
#[verifier::external_body]
fn sha256(bytes: &[u8]) -> (digest: Vec<u8>)
    ensures
        digest@ == sha256_digest(bytes@),
        digest@.len() == 32,
{
    let mut hasher = Sha256::new();
    hasher.update(bytes);
    hasher.finalize().to_vec()
}

/// Hashes a token with SHA-256 for safe storage, as hexadecimal digits.
pub fn hash_token(token: &str) -> (hash: String)
    ensures
        hash@ == random::hex_text(sha256_digest(encode_utf8(token@))),
        random::is_hex(hash@, 64),
{
    let digest = sha256(token.as_bytes());
    to_hex(digest.as_slice())
}

/// A token is found exactly if it is one of those configured.
pub proof fn law_configured_tokens_are_found(tokens: Seq<WebAuthToken>, token: Seq<char>)
    ensures
        matching_name(tokens, token) is Some <==> exists|i: int|
            0 <= i < tokens.len() && #[trigger] tokens[i].token@ == token,
    decreases tokens.len(),
{
    if tokens.len() > 0 {
        let rest = tokens.drop_first();
        law_configured_tokens_are_found(rest, token);
        if matching_name(rest, token) is Some {
            let i = choose|i: int| 0 <= i < rest.len() && #[trigger] rest[i].token@ == token;
            assert(tokens[i + 1].token@ == token);
        }
        if exists|i: int| 0 <= i < tokens.len() && #[trigger] tokens[i].token@ == token {
            let i = choose|i: int| 0 <= i < tokens.len() && #[trigger] tokens[i].token@ == token;
            if i > 0 {
                assert(rest[i - 1].token@ == token);
            }
        }
    }
}

/// The token that is made at startup is accepted from then on, under the name
/// that generated tokens have, and no second one is made.
pub proof fn law_one_generated_token(config: WebAuthConfig, token: WebAuthToken)
    requires
        config.tokens@ == seq![token],
        token.name@ == AUTO_GENERATED@,
    ensures
        matching_name(config.tokens@, token.token@) == Some(AUTO_GENERATED@),
        matching_name(config.tokens@, token.token@) == Some("auto-generated"@),
        !wants_token(config),
{
}

/// Nothing of the middle of a token shows: tokens that agree in their first six
/// and last four characters, and have others, are masked alike.
pub proof fn law_mask_hides_the_middle(token: Seq<char>, other: Seq<char>)
    requires
        token.len() > SHOWN_AT_START + SHOWN_AT_END,
        other.len() > SHOWN_AT_START + SHOWN_AT_END,
        token.take(SHOWN_AT_START as int) == other.take(SHOWN_AT_START as int),
        token.skip(token.len() - SHOWN_AT_END) == other.skip(other.len() - SHOWN_AT_END),
    ensures
        masked(token) == masked(other),
{
}

/// A generated token has 51 characters, and ten of them are shown.
pub proof fn law_generated_token_is_masked(token: Seq<char>)
    requires
        is_api_token(token),
    ensures
        token.len() == 51,
        masked(token) == token.take(6) + "..."@ + token.skip(47),
{
    reveal_strlit("of-");
}

/// A token is found under the name of the first configured token that equals it.
pub proof fn law_first_match_gives_the_name(tokens: Seq<WebAuthToken>, token: Seq<char>, i: int)
    requires
        0 <= i < tokens.len(),
        tokens[i].token@ == token,
        forall|j: int| 0 <= j < i ==> (#[trigger] tokens[j]).token@ != token,
    ensures
        matching_name(tokens, token) == Some(tokens[i].name@),
    decreases i,
{
    if i > 0 {
        let rest = tokens.drop_first();
        assert(tokens[0].token@ != token);
        assert(rest[i - 1] == tokens[i]);
        assert forall|j: int| 0 <= j < i - 1 implies (#[trigger] rest[j]).token@ != token by {
            assert(rest[j] == tokens[j + 1]);
        }
        law_first_match_gives_the_name(rest, token, i - 1);
    }
}

/// A generated token is `of-` and 48 digits out of sixteen.
pub proof fn law_what_generated_tokens_look_like(token: Seq<char>, i: int)
    requires
        is_api_token(token),
        3 <= i < 51,
    ensures
        token.len() == 51,
        token[0] == 'o' && token[1] == 'f' && token[2] == '-',
        "0123456789abcdef"@.contains(token[i]),
{
    reveal_strlit("of-");
    let rest = token.skip(3);
    assert(token[0] == TOKEN_PREFIX@[0]);
    assert(token[1] == TOKEN_PREFIX@[1]);
    assert(token[2] == TOKEN_PREFIX@[2]);
    assert(rest[i - 3] == token[i]);
    assert(random::is_hex_digit(rest[i - 3]));
    random::law_what_is_a_hex_digit(token[i]);
}

/// A token is made at startup only if that is asked for, authentication is
/// configured and there is no token yet.
pub proof fn law_when_a_token_is_made(config: WebAuthConfig)
    ensures
        wants_token(config) ==> config.auto_generate_token,
        wants_token(config) ==> config.tokens@.len() == 0,
        wants_token(config) ==> config.mode == WebAuthMode::Token || config.mode
            == WebAuthMode::Full,
        config.auto_generate_token && config.tokens@.len() == 0 && config.mode == WebAuthMode::Token
            ==> wants_token(config),
        config.auto_generate_token && config.tokens@.len() == 0 && config.mode == WebAuthMode::Full
            ==> wants_token(config),
{
}

/// Of a token with more than ten characters the first six and the last four
/// show, with three dots between them; of any other, three asterisks stand for
/// the whole.
pub proof fn law_what_a_mask_shows(token: Seq<char>, i: int)
    ensures
        token.len() > 10 ==> masked(token).len() == 13,
        token.len() > 10 && 0 <= i < 6 ==> masked(token)[i] == token[i],
        token.len() > 10 && 6 <= i < 9 ==> masked(token)[i] == '.',
        token.len() > 10 && 9 <= i < 13 ==> masked(token)[i] == token[token.len() - 13 + i],
        token.len() <= 10 ==> masked(token).len() == 3,
        token.len() <= 10 && 0 <= i < 3 ==> masked(token)[i] == '*',
{
    reveal_strlit("...");
    reveal_strlit("***");
}

} // verus!
