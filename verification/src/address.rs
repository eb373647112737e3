//! Absolute URLs, parsed and resolved by the `url` crate.
use vstd::prelude::*;

verus! {

/// The error type of the `url` crate's parser.
#[verifier::external_type_specification]
#[verifier::external_body]
pub struct ExUrlParseError(url::ParseError);

/// What `url::Url::parse` makes of `input`: the serialization and the path of
/// the parsed URL, or `None` where it reports an error.
pub uninterp spec fn parsed_url(input: Seq<char>) -> Option<(Seq<char>, Seq<char>)>;

/// What `url::Url::join` makes of `input` against the URL that `base` serializes:
/// the serialization and the path of the result, or `None` where it reports an error.
pub uninterp spec fn joined_url(base: Seq<char>, input: Seq<char>) -> Option<(Seq<char>, Seq<char>)>;

/// An absolute URL, held as its serialization and its path.
#[derive(Debug, Clone)]
pub struct PageUrl {
    href: String,
    path: String,
}

impl View for PageUrl {
    type V = (Seq<char>, Seq<char>);

    closed spec fn view(&self) -> (Seq<char>, Seq<char>) {
        (self.href@, self.path@)
    }
}

/// Parses an absolute URL with `url::Url::parse`; the result is the one that
/// `parsed_url` names. On success the URL keeps the serialization and path
/// that `url::Url::as_str` and `url::Url::path` report.
#[verifier::external_body]
fn parse_with_url_crate(input: &str) -> (r: Result<PageUrl, url::ParseError>)
    ensures
        r is Ok <==> parsed_url(input@) is Some,
        r matches Ok(u) ==> parsed_url(input@) == Some(u@),
{
    match url::Url::parse(input) {
        Ok(u) => Ok(PageUrl { href: u.as_str().to_owned(), path: u.path().to_owned() }),
        Err(e) => Err(e),
    }
}

/// Resolves `input` against `base` with `url::Url::join` (after reading `base`
/// back with `url::Url::parse`); the result is the one that `joined_url` names.
#[verifier::external_body]
fn join_with_url_crate(base: &PageUrl, input: &str) -> (r: Result<PageUrl, url::ParseError>)
    ensures
        r is Ok <==> joined_url(base.href@, input@) is Some,
        r matches Ok(u) ==> joined_url(base.href@, input@) == Some(u@),
{
    let joined = match url::Url::parse(&base.href) {
        Ok(b) => b.join(input),
        Err(e) => Err(e),
    };
    match joined {
        Ok(u) => Ok(PageUrl { href: u.as_str().to_owned(), path: u.path().to_owned() }),
        Err(e) => Err(e),
    }
}

/// The descriptions that `url::ParseError`'s `Display` writes, one per variant.
pub open spec fn is_url_error_text(t: Seq<char>) -> bool {
    ||| t == "empty host"@
    ||| t == "invalid international domain name"@
    ||| t == "invalid port number"@
    ||| t == "invalid IPv4 address"@
    ||| t == "invalid IPv6 address"@
    ||| t == "invalid domain character"@
    ||| t == "relative URL without a base"@
    ||| t == "relative URL with a cannot-be-a-base base"@
    ||| t == "a cannot-be-a-base URL doesn\u{2019}t have a host to set"@
    ||| t == "URLs more than 4 GB are not supported"@
}

/// The description of a `url::ParseError`, as its `Display` writes it: the
/// text of its variant, one of the ten that `is_url_error_text` lists. Which
/// variant an error is stays unsaid, since the error type is opaque here.
#[verifier::external_body]
fn url_error_text(e: &url::ParseError) -> (r: String)
    ensures
        is_url_error_text(r@),
{
    e.to_string()
}

impl PageUrl {
    /// Parses an absolute URL; a parse error becomes `Error::Url` with its
    /// description (one of the texts `is_url_error_text` lists).
    pub fn parse(input: &str) -> (r: Result<PageUrl, crate::error::Error>)
        ensures
            r is Ok <==> parsed_url(input@) is Some,
            r matches Ok(u) ==> parsed_url(input@) == Some(u@),
            r matches Err(e) ==> (e matches crate::error::Error::Url(m) && is_url_error_text(m@)),
    {
        match parse_with_url_crate(input) {
            Ok(u) => Ok(u),
            Err(e) => Err(crate::error::Error::Url(url_error_text(&e))),
        }
    }

    /// Resolves `input` (absolute, or relative to this URL) into a new URL; an
    /// error becomes `Error::Url` with its description (one of the texts
    /// `is_url_error_text` lists).
    pub fn join(&self, input: &str) -> (r: Result<PageUrl, crate::error::Error>)
        ensures
            r is Ok <==> joined_url(self@.0, input@) is Some,
            r matches Ok(u) ==> joined_url(self@.0, input@) == Some(u@),
            r matches Err(e) ==> (e matches crate::error::Error::Url(m) && is_url_error_text(m@)),
    {
        match join_with_url_crate(self, input) {
            Ok(u) => Ok(u),
            Err(e) => Err(crate::error::Error::Url(url_error_text(&e))),
        }
    }

    /// The serialization of the URL.
    pub fn as_str(&self) -> (r: &str)
        ensures
            r@ == self@.0,
    {
        self.href.as_str()
    }

    /// The path of the URL.
    pub fn path(&self) -> (r: &str)
        ensures
            r@ == self@.1,
    {
        self.path.as_str()
    }
}

} // verus!
