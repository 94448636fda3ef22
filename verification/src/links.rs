//! URLs, as far as the library looks at them: whether a text is one, and
//! how it is written in full.

use crate::error::{ErrorKind, FeedError};
use vstd::prelude::*;
use vstd::string::StringExecFns;

verus! {

/// A URL, as far as the library looks at it.
#[derive(Debug, PartialEq, Clone)]
pub struct ParsedUrl {
    /// The URL written in full.
    pub full: String,
    /// The query, where the URL has one.
    pub query: Option<String>,
    /// The path.
    pub path: String,
    /// The URL written in full, without its query.
    pub without_query: String,
}

/// What a [`ParsedUrl`] holds, as mathematical values.
pub struct ParsedUrlView {
    pub full: Seq<char>,
    pub query: Option<Seq<char>>,
    pub path: Seq<char>,
    pub without_query: Seq<char>,
}

impl View for ParsedUrl {
    type V = ParsedUrlView;

    open spec fn view(&self) -> ParsedUrlView {
        ParsedUrlView {
            full: self.full@,
            query: match self.query {
                Some(query) => Some(query@),
                None => None,
            },
            path: self.path@,
            without_query: self.without_query@,
        }
    }
}

/// What `url::Url::parse` makes of a text. A URL is told by what `Url`
/// gives for it: the URL written in full (`Url::as_str`), its query
/// (`Url::query`), its path (`Url::path`), and the URL written in full
/// after `Url::set_query(None)` has taken the query from it. A text that is
/// no URL is told by what the parse error says of it.
pub uninterp spec fn url_parts(text: Seq<char>) -> Result<ParsedUrlView, Seq<char>>;

/// A parsed URL or the characters of an error.
pub open spec fn parts_view(parsed: Result<ParsedUrl, String>) -> Result<ParsedUrlView, Seq<char>> {
    match parsed {
        Ok(url) => Ok(url@),
        Err(text) => Err(text@),
    }
}

/// Parses a text with `url::Url::parse`. Of a URL it hands out what
/// `Url::as_str`, `Url::query` and `Url::path` give, and what `Url::as_str`
/// gives after `Url::set_query(None)`; of an error the text it displays.
#[verifier::external_body]
pub(crate) fn parse_parts(text: &str) -> (parsed: Result<ParsedUrl, String>)
    ensures
        parts_view(parsed) == url_parts(text@),
{
    match url::Url::parse(text) {
        Err(error) => Err(error.to_string()),
        Ok(mut url) => {
            let full = String::from(url.as_str());
            let query = url.query().map(String::from);
            let path = String::from(url.path());
            url.set_query(None);
            Ok(ParsedUrl { full, query, path, without_query: String::from(url) })
        },
    }
}

/// What parsing makes of a text: the URL written in full, or what the
/// parse error says of the text.
pub open spec fn url_parsed(text: Seq<char>) -> Result<Seq<char>, Seq<char>> {
    match url_parts(text) {
        Ok(url) => Ok(url.full),
        Err(cause) => Err(cause),
    }
}

/// The characters of a result that holds text either way.
pub open spec fn text_result(result: Result<String, String>) -> Result<Seq<char>, Seq<char>> {
    match result {
        Ok(text) => Ok(text@),
        Err(text) => Err(text@),
    }
}

/// Parses a text as a URL and writes the URL in full.
pub fn parse_url(text: &str) -> (parsed: Result<String, String>)
    ensures
        text_result(parsed) == url_parsed(text@),
{
    match parse_parts(text) {
        Ok(url) => Ok(url.full),
        Err(cause) => Err(cause),
    }
}

/// The message for a configured source that is no URL.
pub open spec fn invalid_url_message(url: Seq<char>, cause: Seq<char>) -> Seq<char> {
    "Failed to parse url "@ + url + " in category: "@ + cause
}

/// What a configured source comes to, given what parsing it as a URL gave:
/// the URL written in full, or the error that names the source.
pub open spec fn validated(url: Seq<char>, parsed: Result<Seq<char>, Seq<char>>) -> Result<
    Seq<char>,
    (ErrorKind, Seq<char>),
> {
    match parsed {
        Ok(full) => Ok(full),
        Err(cause) => Err((ErrorKind::InvalidConfig, invalid_url_message(url, cause))),
    }
}

/// The characters of a validated source, or the kind and message of its
/// error.
pub open spec fn validation_view(result: Result<String, FeedError>) -> Result<
    Seq<char>,
    (ErrorKind, Seq<char>),
> {
    match result {
        Ok(full) => Ok(full@),
        Err(error) => Err((error@.kind, error@.message)),
    }
}

/// Accepts a configured source for which parsing gave `parsed`, or
/// rejects it with an error that names it.
pub fn validated_url(url: &str, parsed: Result<String, String>) -> (result: Result<
    String,
    FeedError,
>)
    ensures
        validation_view(result) == validated(url@, text_result(parsed)),
{
    match parsed {
        Ok(full) => Ok(full),
        Err(cause) => {
            let mut message = String::from_str("Failed to parse url ");
            message.append(url);
            message.append(" in category: ");
            message.append(cause.as_str());
            Err(FeedError::new(ErrorKind::InvalidConfig, message))
        },
    }
}

/// Accepts a configured source if `url::Url::parse` reads it as a URL.
pub fn checked_url(url: &str) -> (result: Result<String, FeedError>)
    ensures
        validation_view(result) == validated(url@, url_parsed(url@)),
{
    validated_url(url, parse_url(url))
}

/// What parsing makes of a text: the URL written in full without its
/// query, or what the parse error says of the text.
pub open spec fn url_without_query(text: Seq<char>) -> Result<Seq<char>, Seq<char>> {
    match url_parts(text) {
        Ok(url) => Ok(url.without_query),
        Err(cause) => Err(cause),
    }
}

/// What parsing makes of a text: the query of the URL, where it has one,
/// and its path; or what the parse error says of the text.
pub open spec fn url_query_and_path(text: Seq<char>) -> Result<
    (Option<Seq<char>>, Seq<char>),
    Seq<char>,
> {
    match url_parts(text) {
        Ok(url) => Ok((url.query, url.path)),
        Err(cause) => Err(cause),
    }
}

/// The characters of the query and the path of a URL, or of an error.
pub open spec fn parts_result(parts: Result<(Option<String>, String), String>) -> Result<
    (Option<Seq<char>>, Seq<char>),
    Seq<char>,
> {
    match parts {
        Ok((Some(query), path)) => Ok((Some(query@), path@)),
        Ok((None, path)) => Ok((None, path@)),
        Err(text) => Err(text@),
    }
}

/// Parses a text as a URL and writes the URL in full, without its query.
pub fn parse_without_query(text: &str) -> (parsed: Result<String, String>)
    ensures
        text_result(parsed) == url_without_query(text@),
{
    match parse_parts(text) {
        Ok(url) => Ok(url.without_query),
        Err(cause) => Err(cause),
    }
}

/// Parses a text as a URL and hands out its query, where it has one, and
/// its path.
pub fn query_and_path(text: &str) -> (parts: Result<(Option<String>, String), String>)
    ensures
        parts_result(parts) == url_query_and_path(text@),
{
    match parse_parts(text) {
        Ok(url) => Ok((url.query, url.path)),
        Err(cause) => Err(cause),
    }
}

} // verus!
