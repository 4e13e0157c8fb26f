//! Answers that are given in place of the requested ones.

use crate::config::WebAuthMode;
use crate::json;
use crate::json::json_text;
use vstd::prelude::*;

verus! {

/// The status of an answer to a request that lacks valid credentials.
pub const UNAUTHORIZED: u16 = 401;

/// The status of an answer to a request that is not let in at all.
pub const FORBIDDEN: u16 = 403;

/// An answer: its status, its headers and its body.
#[derive(Debug)]
pub struct HttpResponse {
    pub status: u16,
    pub headers: Vec<(String, String)>,
    pub body: String,
}

impl HttpResponse {
    /// Whether the answer has exactly this status, these headers and this
    /// body.
    pub open spec fn reads(
        self,
        status: u16,
        headers: Seq<(Seq<char>, Seq<char>)>,
        body: Seq<char>,
    ) -> bool {
        &&& self.status == status
        &&& json::view_fields(self.headers@) == headers
        &&& self.body@ == body
    }

    /// Whether the answer is a JSON error with this status and this message.
    pub open spec fn is_json_error(self, status: u16, message: Seq<char>) -> bool {
        self.reads(
            status,
            seq![("content-type"@, "application/json"@)],
            json::json_object(seq![("error"@, message)]),
        )
    }
}

/// What a remote client is told where authentication is off.
pub const NO_AUTH_CONFIGURED: &'static str =
    "No authentication configured. Remote access denied. Configure api_key or [auth] section in ~/.openfang/config.toml";

/// What a client with a wrong token is told.
pub const INVALID_TOKEN: &'static str = "Invalid API token";

/// What a client without credentials is told.
pub const CREDENTIALS_REQUIRED: &'static str =
    "Authentication required. Provide Authorization: Bearer <token> header, or log in with password.";

/// A JSON error.
pub fn json_error(status: u16, message: &str) -> (response: HttpResponse)
    ensures
        response.is_json_error(status, message@),
{
    let fields = vec![("error".to_owned(), message.to_owned())];
    let headers = vec![("content-type".to_owned(), "application/json".to_owned())];
    proof {
        reveal_strlit("error");
        assert(json::view_fields(fields@) =~= seq![("error"@, message@)]);
        assert(json::view_fields(headers@) =~= seq![("content-type"@, "application/json"@)]);
    }
    HttpResponse { status, headers, body: json_text(fields) }
}

/// What the middleware decides on a request.
#[derive(Debug, Clone, Copy, PartialEq, Eq, Structural)]
pub enum Verdict {
    /// The request is let through.
    Forward,
    /// Authentication is off and the request is not local.
    NoAuthConfigured,
    /// The request has a token that is not accepted.
    InvalidToken,
    /// The request has no credentials that count; the mode in force is named.
    CredentialsRequired(WebAuthMode),
}

/// What becomes of a request.
#[derive(Debug)]
pub enum AuthOutcome {
    /// It is handed on.
    Forward,
    /// It is answered right away.
    Respond(HttpResponse),
}

impl AuthOutcome {
    /// Whether this is what becomes of a request by a verdict.
    pub open spec fn carries_out(self, verdict: Verdict) -> bool {
        match verdict {
            Verdict::Forward => self is Forward,
            Verdict::NoAuthConfigured => self matches AuthOutcome::Respond(r) && r.is_json_error(
                FORBIDDEN,
                NO_AUTH_CONFIGURED@,
            ),
            Verdict::InvalidToken => self matches AuthOutcome::Respond(r) && r.is_json_error(
                UNAUTHORIZED,
                INVALID_TOKEN@,
            ),
            Verdict::CredentialsRequired(mode) => self matches AuthOutcome::Respond(r) && r.reads(
                UNAUTHORIZED,
                seq![("www-authenticate"@, "Bearer"@), ("content-type"@, "application/json"@)],
                json::json_object(
                    seq![("auth_mode"@, mode.spec_name()), ("error"@, CREDENTIALS_REQUIRED@)],
                ),
            ),
        }
    }
}

/// The answer to a request without credentials.
fn credentials_required(mode: WebAuthMode) -> (response: HttpResponse)
    ensures
        AuthOutcome::Respond(response).carries_out(Verdict::CredentialsRequired(mode)),
{
    let fields = vec![
        ("auth_mode".to_owned(), mode.name().to_owned()),
        ("error".to_owned(), CREDENTIALS_REQUIRED.to_owned()),
    ];
    let headers = vec![
        ("www-authenticate".to_owned(), "Bearer".to_owned()),
        ("content-type".to_owned(), "application/json".to_owned()),
    ];
    proof {
        reveal_strlit("auth_mode");
        reveal_strlit("error");
        assert(json::view_fields(fields@) =~= seq![
            ("auth_mode"@, mode.spec_name()),
            ("error"@, CREDENTIALS_REQUIRED@),
        ]);
        assert(json::view_fields(headers@) =~= seq![
            ("www-authenticate"@, "Bearer"@),
            ("content-type"@, "application/json"@),
        ]);
    }
    HttpResponse { status: UNAUTHORIZED, headers, body: json_text(fields) }
}

/// Carries out a verdict.
pub fn carry_out(verdict: Verdict) -> (outcome: AuthOutcome)
    ensures
        outcome.carries_out(verdict),
{
    match verdict {
        Verdict::Forward => AuthOutcome::Forward,
        Verdict::NoAuthConfigured => AuthOutcome::Respond(
            json_error(FORBIDDEN, NO_AUTH_CONFIGURED),
        ),
        Verdict::InvalidToken => AuthOutcome::Respond(json_error(UNAUTHORIZED, INVALID_TOKEN)),
        Verdict::CredentialsRequired(mode) => AuthOutcome::Respond(credentials_required(mode)),
    }
}

/// What the refusals say, word for word.
pub proof fn law_refusals_word_for_word(response: HttpResponse, mode: WebAuthMode)
    ensures
        response.is_json_error(FORBIDDEN, NO_AUTH_CONFIGURED@) ==> response.body@
            == "{\"error\":\"No authentication configured. Remote access denied. Configure api_key or [auth] section in ~/.openfang/config.toml\"}"@,
        response.is_json_error(UNAUTHORIZED, INVALID_TOKEN@) ==> response.body@
            == "{\"error\":\"Invalid API token\"}"@,
        AuthOutcome::Respond(response).carries_out(Verdict::CredentialsRequired(mode))
            ==> response.body@ == "{\"auth_mode\":\""@ + mode.spec_name()
            + "\",\"error\":\"Authentication required. Provide Authorization: Bearer <token> header, or log in with password.\"}"@,
{
    reveal_strlit("No authentication configured. Remote access denied. Configure api_key or [auth] section in ~/.openfang/config.toml");
    reveal_strlit("Invalid API token");
    reveal_strlit("Authentication required. Provide Authorization: Bearer <token> header, or log in with password.");
    reveal_strlit("{\"error\":\"No authentication configured. Remote access denied. Configure api_key or [auth] section in ~/.openfang/config.toml\"}");
    reveal_strlit("{\"error\":\"Invalid API token\"}");
    reveal_strlit("{\"auth_mode\":\"");
    reveal_strlit("\",\"error\":\"Authentication required. Provide Authorization: Bearer <token> header, or log in with password.\"}");
    reveal_strlit("error");
    reveal_strlit("auth_mode");
    reveal_strlit("none");
    reveal_strlit("token");
    reveal_strlit("full");
    json::lemma_plain_text(NO_AUTH_CONFIGURED@);
    json::lemma_plain_text(INVALID_TOKEN@);
    json::lemma_plain_text(CREDENTIALS_REQUIRED@);
    json::lemma_plain_text("error"@);
    json::lemma_plain_text("auth_mode"@);
    json::lemma_plain_text(mode.spec_name());
    lemma_one_member("error"@, NO_AUTH_CONFIGURED@);
    lemma_one_member("error"@, INVALID_TOKEN@);
    let members = seq![("auth_mode"@, mode.spec_name()), ("error"@, CREDENTIALS_REQUIRED@)];
    assert(members.drop_last() =~= seq![("auth_mode"@, mode.spec_name())]);
    lemma_one_member("auth_mode"@, mode.spec_name());
    assert(json::json_object(seq![("error"@, NO_AUTH_CONFIGURED@)])
        =~= "{\"error\":\"No authentication configured. Remote access denied. Configure api_key or [auth] section in ~/.openfang/config.toml\"}"@);
    assert(json::json_object(seq![("error"@, INVALID_TOKEN@)])
        =~= "{\"error\":\"Invalid API token\"}"@);
    assert(json::json_object(members) =~= "{\"auth_mode\":\""@ + mode.spec_name()
        + "\",\"error\":\"Authentication required. Provide Authorization: Bearer <token> header, or log in with password.\"}"@);
}

/// The only member of a JSON object.
proof fn lemma_one_member(name: Seq<char>, value: Seq<char>)
    ensures
        json::json_members(seq![(name, value)]) == json::json_string(name) + seq![':']
            + json::json_string(value),
{
}

/// A request is handed on exactly by the verdict that lets it through.
pub proof fn law_only_the_let_through_are_handed_on(outcome: AuthOutcome, verdict: Verdict)
    requires
        outcome.carries_out(verdict),
    ensures
        outcome is Forward <==> verdict is Forward,
{
}

/// Every refusal in full: its status, its headers and its body.
pub proof fn law_refusals_in_full(response: HttpResponse, verdict: Verdict)
    requires
        AuthOutcome::Respond(response).carries_out(verdict),
    ensures
        verdict is NoAuthConfigured ==> response.status == 403 && response.body@
            == "{\"error\":\"No authentication configured. Remote access denied. Configure api_key or [auth] section in ~/.openfang/config.toml\"}"@,
        verdict is InvalidToken ==> response.status == 401 && response.body@
            == "{\"error\":\"Invalid API token\"}"@,
        verdict matches Verdict::CredentialsRequired(mode) ==> response.status == 401
            && response.body@ == "{\"auth_mode\":\""@ + mode.spec_name()
            + "\",\"error\":\"Authentication required. Provide Authorization: Bearer <token> header, or log in with password.\"}"@,
        verdict is CredentialsRequired ==> response.headers@.len() == 2
            && response.headers@[0].0@ == "www-authenticate"@ && response.headers@[0].1@ == "Bearer"@
            && response.headers@[1].0@ == "content-type"@ && response.headers@[1].1@
            == "application/json"@,
        !(verdict is CredentialsRequired) ==> response.headers@.len() == 1
            && response.headers@[0].0@ == "content-type"@ && response.headers@[0].1@
            == "application/json"@,
{
    let mode = match verdict {
        Verdict::CredentialsRequired(mode) => mode,
        _ => WebAuthMode::Off,
    };
    law_refusals_word_for_word(response, mode);
    let fields = json::view_fields(response.headers@);
    assert(fields.len() == response.headers@.len());
    assert(fields[0] == (response.headers@[0].0@, response.headers@[0].1@));
    if verdict is CredentialsRequired {
        assert(fields[1] == (response.headers@[1].0@, response.headers@[1].1@));
    }
}

/// A JSON error has the status and the message it was made with.
pub proof fn law_json_error_holds_its_message(
    response: HttpResponse,
    status: u16,
    message: Seq<char>,
)
    requires
        response.is_json_error(status, message),
        forall|i: int|
            0 <= i < message.len() ==> (#[trigger] message[i]) as u32 >= 32 && message[i] != '"'
                && message[i] != '\\',
    ensures
        response.status == status,
        response.body@ == "{\"error\":\""@ + message + "\"}"@,
        response.headers@.len() == 1,
        response.headers@[0].0@ == "content-type"@,
        response.headers@[0].1@ == "application/json"@,
{
    reveal_strlit("error");
    reveal_strlit("{\"error\":\"");
    reveal_strlit("\"}");
    json::lemma_plain_text("error"@);
    json::lemma_plain_text(message);
    lemma_one_member("error"@, message);
    assert(json::json_object(seq![("error"@, message)]) =~= "{\"error\":\""@ + message + "\"}"@);
    let fields = json::view_fields(response.headers@);
    assert(fields.len() == response.headers@.len());
    assert(fields[0] == (response.headers@[0].0@, response.headers@[0].1@));
}

} // verus!
