//! Finding the credentials in a request.

use crate::headers;
use crate::headers::get_header;
use crate::text;
use crate::text::{cut_text, strip_prefix, trim_text};
use crate::uri::Uri;
use axum::http::HeaderMap;
use vstd::prelude::*;
use vstd::string::*;

verus! {

/// The name of the session cookie.
pub const SESSION_COOKIE: &'static str = "openfang_session";

/// What stands behind the prefix in the first of some texts that has it.
pub open spec fn first_after(texts: Seq<Seq<char>>, prefix: Seq<char>) -> Option<Seq<char>>
    decreases texts.len(),
{
    if texts.len() == 0 {
        None
    } else if prefix.is_prefix_of(texts[0]) {
        text::after_prefix(texts[0], prefix)
    } else {
        first_after(texts.drop_first(), prefix)
    }
}

/// The token in an authorization header: what follows `Bearer `.
pub open spec fn bearer_token(value: Option<Seq<char>>) -> Option<Seq<char>> {
    match value {
        Some(v) => text::after_prefix(v, "Bearer "@),
        None => None,
    }
}

/// The bearer token of a request.
pub fn extract_bearer_token<'a>(headers: &'a HeaderMap) -> (token: Option<&'a str>)
    ensures
        text::view_str(token) == bearer_token(
            headers::header_text(headers::header_values(*headers), "authorization"@),
        ),
{
    proof {
        reveal_strlit("authorization");
    }
    match get_header(headers, "authorization") {
        Some(value) => strip_prefix(value, "Bearer "),
        None => None,
    }
}

/// The API key header of a request.
pub fn extract_api_key_header<'a>(headers: &'a HeaderMap) -> (key: Option<&'a str>)
    ensures
        text::view_str(key) == headers::header_text(
            headers::header_values(*headers),
            "x-api-key"@,
        ),
{
    proof {
        reveal_strlit("x-api-key");
    }
    get_header(headers, "x-api-key")
}

/// The token in a query: the value of the first `token` parameter, as written.
pub open spec fn query_token(query: Option<Seq<char>>) -> Option<Seq<char>> {
    match query {
        Some(q) => first_after(text::split(q, '&'), "token="@),
        None => None,
    }
}

/// The token in the query of a request.
pub fn extract_query_token<'a>(uri: &'a Uri) -> (token: Option<&'a str>)
    ensures
        text::view_str(token) == query_token(text::view_string(uri.query)),
{
    match &uri.query {
        Some(query) => token_parameter(query.as_str()),
        None => None,
    }
}

/// The value of the first `token` parameter in a query.
fn token_parameter<'a>(query: &'a str) -> (token: Option<&'a str>)
    ensures
        text::view_str(token) == first_after(text::split(query@, '&'), "token="@),
{
    let mut rest: &'a str = query;
    loop
        invariant
            first_after(text::split(query@, '&'), "token="@) == first_after(
                text::split(rest@, '&'),
                "token="@,
            ),
        decreases rest@.len(),
    {
        let (pair, more) = cut_text(rest, '&');
        proof {
            match more {
                Some(tail) => {
                    assert(text::split(rest@, '&').drop_first() =~= text::split(tail@, '&'));
                },
                None => {
                    assert(text::split(rest@, '&').drop_first().len() == 0);
                    assert(first_after(text::split(rest@, '&').drop_first(), "token="@) is None);
                },
            }
        }
        if let Some(token) = strip_prefix(pair, "token=") {
            return Some(token);
        }
        match more {
            Some(tail) => {
                rest = tail;
            },
            None => {
                return None;
            },
        }
    }
}

/// The cookies in a cookie header, without the blanks around them.
pub open spec fn cookies(value: Seq<char>) -> Seq<Seq<char>> {
    text::split(value, ';').map_values(|cookie: Seq<char>| text::trim(cookie))
}

/// The session id in a cookie header: the value of the first cookie with the
/// session cookie's name.
pub open spec fn session_cookie(value: Option<Seq<char>>) -> Option<Seq<char>> {
    match value {
        Some(v) => first_after(cookies(v), SESSION_COOKIE@ + "="@),
        None => None,
    }
}

/// The session cookie of a request.
pub fn extract_session_cookie(headers: &HeaderMap) -> (id: Option<String>)
    ensures
        text::view_string(id) == session_cookie(
            headers::header_text(headers::header_values(*headers), "cookie"@),
        ),
{
    proof {
        reveal_strlit("cookie");
    }
    match get_header(headers, "cookie") {
        Some(value) => session_id_in(value),
        None => None,
    }
}

/// The session id in a cookie header.
pub fn session_id_in(value: &str) -> (id: Option<String>)
    ensures
        text::view_string(id) == session_cookie(Some(value@)),
{
    let prefix = SESSION_COOKIE.to_owned().concat("=");
    let mut rest: &str = value;
    loop
        invariant
            prefix@ == SESSION_COOKIE@ + "="@,
            first_after(cookies(value@), prefix@) == first_after(cookies(rest@), prefix@),
        decreases rest@.len(),
    {
        let (part, more) = cut_text(rest, ';');
        let cookie = trim_text(part);
        proof {
            match more {
                Some(tail) => {
                    assert(cookies(rest@).drop_first() =~= cookies(tail@));
                },
                None => {
                    assert(cookies(rest@).drop_first().len() == 0);
                    assert(first_after(cookies(rest@).drop_first(), prefix@) is None);
                },
            }
        }
        if let Some(id) = strip_prefix(cookie, prefix.as_str()) {
            return Some(id.to_owned());
        }
        match more {
            Some(tail) => {
                rest = tail;
            },
            None => {
                return None;
            },
        }
    }
}

/// A bearer token comes out as it was put in.
pub proof fn law_bearer_round_trip(token: Seq<char>)
    ensures
        bearer_token(Some("Bearer "@ + token)) == Some(token),
{
    let value = "Bearer "@ + token;
    assert(value.skip("Bearer "@.len() as int) =~= token);
    assert("Bearer "@.is_prefix_of(value));
}

/// A query is searched from its start: what is found before the first `&`
/// wins over what stands behind it.
pub proof fn law_query_is_searched_in_order(pair: Seq<char>, rest: Seq<char>)
    requires
        !pair.contains('&'),
    ensures
        query_token(Some(pair + (seq!['&'] + rest))) == (if query_token(Some(pair)) is Some {
            query_token(Some(pair))
        } else {
            query_token(Some(rest))
        }),
{
    text::lemma_cut(pair, '&', rest);
    text::lemma_cut_absent(pair, '&');
    lemma_first_after_cons(pair, text::split(rest, '&'), "token="@);
    lemma_first_after_cons(pair, Seq::empty(), "token="@);
    assert(seq![pair] + Seq::<Seq<char>>::empty() =~= seq![pair]);
}

/// A token comes out of a query as it was put in, if it holds no `&`.
pub proof fn law_query_round_trip(token: Seq<char>)
    requires
        !token.contains('&'),
    ensures
        query_token(Some("token="@ + token)) == Some(token),
{
    reveal_strlit("token=");
    let pair = "token="@ + token;
    assert(!pair.contains('&')) by {
        if pair.contains('&') {
            let i = pair.index_of('&');
            if i >= "token="@.len() {
                assert(token[i - "token="@.len()] == '&');
            }
        }
    }
    text::lemma_cut_absent(pair, '&');
    assert(pair.skip("token="@.len() as int) =~= token);
    assert("token="@.is_prefix_of(pair));
}

/// The first of some texts decides, if it has the prefix.
proof fn lemma_first_after_cons(first: Seq<char>, rest: Seq<Seq<char>>, prefix: Seq<char>)
    ensures
        first_after(seq![first] + rest, prefix) == (if prefix.is_prefix_of(first) {
            text::after_prefix(first, prefix)
        } else {
            first_after(rest, prefix)
        }),
{
    assert((seq![first] + rest).drop_first() =~= rest);
}

/// Cookies are searched from the start of the header: what is found before the
/// first `;` wins over what stands behind it.
pub proof fn law_cookies_are_searched_in_order(cookie: Seq<char>, rest: Seq<char>)
    requires
        !cookie.contains(';'),
    ensures
        session_cookie(Some(cookie + (seq![';'] + rest))) == (if session_cookie(Some(cookie)) is Some {
            session_cookie(Some(cookie))
        } else {
            session_cookie(Some(rest))
        }),
{
    let prefix = SESSION_COOKIE@ + "="@;
    text::lemma_cut(cookie, ';', rest);
    text::lemma_cut_absent(cookie, ';');
    let trimmed = text::trim(cookie);
    assert(cookies(cookie + (seq![';'] + rest)) =~= seq![trimmed] + cookies(rest));
    assert(cookies(cookie) =~= seq![trimmed] + Seq::<Seq<char>>::empty());
    lemma_first_after_cons(trimmed, cookies(rest), prefix);
    lemma_first_after_cons(trimmed, Seq::empty(), prefix);
}

/// A session id comes out of a session cookie as it was put in, whatever
/// blanks stand before the cookie, if the id holds no `;` and does not end in
/// a blank.
pub proof fn law_session_cookie_round_trip(id: Seq<char>)
    requires
        !id.contains(';'),
        id.len() > 0 ==> !text::is_blank(id.last()),
    ensures
        session_cookie(Some(SESSION_COOKIE@ + "="@ + id)) == Some(id),
        session_cookie(Some(seq![' '] + (SESSION_COOKIE@ + "="@ + id))) == Some(id),
{
    reveal_strlit("openfang_session");
    reveal_strlit("=");
    let prefix = SESSION_COOKIE@ + "="@;
    let cookie = prefix + id;
    assert(!cookie.contains(';')) by {
        if cookie.contains(';') {
            let i = cookie.index_of(';');
            if i >= prefix.len() {
                assert(id[i - prefix.len()] == ';');
            }
        }
    }
    assert(text::trim_start(cookie) == cookie);
    assert(text::trim_end(cookie) == cookie) by {
        if id.len() > 0 {
            assert(cookie.last() == id.last());
        } else {
            assert(cookie.last() == '=');
        }
    }
    let spaced = seq![' '] + cookie;
    assert(!spaced.contains(';')) by {
        if spaced.contains(';') {
            let i = spaced.index_of(';');
            assert(cookie[i - 1] == ';');
        }
    }
    assert(spaced.drop_first() =~= cookie);
    assert(text::trim_start(spaced) == text::trim_start(cookie));
    text::lemma_cut_absent(cookie, ';');
    text::lemma_cut_absent(spaced, ';');
    assert(cookies(cookie) =~= seq![cookie]);
    assert(cookies(spaced) =~= seq![cookie]);
    assert(cookie.skip(prefix.len() as int) =~= id);
    assert(prefix.is_prefix_of(cookie));
}

/// The bearer token is all that follows `Bearer `, and there is none in any
/// other value.
pub proof fn law_what_the_bearer_token_is(value: Seq<char>, token: Seq<char>)
    ensures
        bearer_token(Some(value)) == Some(token) <==> value == "Bearer "@ + token,
        bearer_token(None) is None,
{
    text::law_prefix_and_rest_make_the_text(value, "Bearer "@, token);
}

/// A single parameter gives a token exactly if it is named `token`.
pub proof fn law_single_parameter(pair: Seq<char>, token: Seq<char>)
    requires
        !pair.contains('&'),
    ensures
        query_token(Some(pair)) == Some(token) <==> pair == "token="@ + token,
        query_token(None) is None,
{
    text::lemma_cut_absent(pair, '&');
    text::law_prefix_and_rest_make_the_text(pair, "token="@, token);
    assert(seq![pair][0] == pair);
    assert(seq![pair].drop_first().len() == 0);
    assert(first_after(seq![pair].drop_first(), "token="@) is None);
}

/// A single cookie, with blanks around it, gives a session id exactly if it is
/// named `openfang_session`.
pub proof fn law_single_cookie(
    before: Seq<char>,
    cookie: Seq<char>,
    after: Seq<char>,
    id: Seq<char>,
)
    requires
        forall|i: int| 0 <= i < before.len() ==> #[trigger] before[i] == ' ' || before[i] == '\t',
        forall|i: int| 0 <= i < after.len() ==> #[trigger] after[i] == ' ' || after[i] == '\t',
        !cookie.contains(';'),
        cookie.len() > 0 ==> cookie[0] != ' ' && cookie[0] != '\t',
        cookie.len() > 0 ==> cookie.last() != ' ' && cookie.last() != '\t',
    ensures
        session_cookie(Some(before + cookie + after)) == Some(id) <==> cookie
            == "openfang_session="@ + id,
        session_cookie(None) is None,
{
    let value = before + cookie + after;
    assert(!value.contains(';')) by {
        if value.contains(';') {
            let i = value.index_of(';');
            if i < before.len() {
                assert(before[i] == ';');
            } else if i < before.len() + cookie.len() {
                assert(cookie[i - before.len()] == ';');
            } else {
                assert(after[i - before.len() - cookie.len()] == ';');
            }
        }
    }
    reveal_strlit("openfang_session");
    reveal_strlit("=");
    reveal_strlit("openfang_session=");
    let prefix = SESSION_COOKIE@ + "="@;
    assert(prefix =~= "openfang_session="@);
    text::lemma_cut_absent(value, ';');
    text::law_trim_takes_the_blanks(before, cookie, after);
    text::law_prefix_and_rest_make_the_text(cookie, prefix, id);
    assert(cookies(value) =~= seq![cookie]);
    assert(seq![cookie].drop_first().len() == 0);
    assert(first_after(seq![cookie].drop_first(), prefix) is None);
}

} // verus!
