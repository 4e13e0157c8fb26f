//! The target of a request.

use crate::text;
use vstd::prelude::*;

verus! {

/// The parts of a request's target that matter here.
#[derive(Debug)]
pub struct Uri {
    pub path: String,
    pub query: Option<String>,
}

/// The path and the query of a URI, if the text is one.
pub uninterp spec fn uri_parts(target: Seq<char>) -> Option<(Seq<char>, Option<Seq<char>>)>;

/// The characters of a path and a query, if there are any.
pub open spec fn view_parts(parts: Option<(String, Option<String>)>) -> Option<
    (Seq<char>, Option<Seq<char>>),
> {
    match parts {
        Some((path, query)) => Some((path@, text::view_string(query))),
        None => None,
    }
}

/// Calls the `FromStr` of `http::Uri`, and its `path` and `query`: nothing if
/// the text is no URI. What comes out depends on the text alone.
#[verifier::external_body]
fn parse_parts(uri: &str) -> (parts: Option<(String, Option<String>)>)
    ensures
        view_parts(parts) == uri_parts(uri@),
{
    let uri = uri.parse::<axum::http::Uri>().ok()?;
    Some((uri.path().to_string(), uri.query().map(|query| query.to_string())))
}

impl Uri {
    /// The characters of the path and the query.
    pub open spec fn parts(self) -> (Seq<char>, Option<Seq<char>>) {
        (self.path@, text::view_string(self.query))
    }

    /// Reads a URI.
    pub fn parse(target: &str) -> (uri: Option<Uri>)
        ensures
            uri is Some <==> uri_parts(target@) is Some,
            uri matches Some(u) ==> uri_parts(target@) == Some(u.parts()),
    {
        match parse_parts(target) {
            Some((path, query)) => Some(Uri { path, query }),
            None => None,
        }
    }
}

} // verus!
