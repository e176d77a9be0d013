//! The request that the host hands over, checked with the `http` crate.

use vstd::prelude::*;
use crate::router::pair_views;
use crate::text::chars_of;

verus! {

/// Why the bytes of the host gave no request.
#[derive(Clone, Copy, Debug, PartialEq, Eq, Structural)]
pub enum DecodeError {
    /// The bytes are not valid UTF-8.
    NotText,
    /// The text does not have the shape of a request.
    Malformed,
    /// The method is not an HTTP method.
    BadMethod,
    /// The url is no URI, or a URI without a path that starts with `/`.
    BadUrl,
}

/// Whether `http` takes a text as the name of a method.
pub uninterp spec fn method_accepted(name: Seq<char>) -> bool;

/// The path and query that `http` reads from a url; `None` where it does not
/// take the text as a URI, or the URI has neither.
pub uninterp spec fn url_path_and_query(url: Seq<char>) -> Option<Seq<char>>;

/// `http::Method::from_bytes` on the bytes of the text: whether it gives a
/// method.
#[verifier::external_body]
fn method_is_accepted(name: &str) -> (accepted: bool)
    ensures
        accepted == method_accepted(name@),
{
    http::Method::from_bytes(name.as_bytes()).is_ok()
}

/// `Uri::from_str` of `http`, then `Uri::path_and_query` and
/// `PathAndQuery::as_str` on what it gave: the path with the query, as text.
#[verifier::external_body]
fn path_and_query_of(url: &str) -> (path: Option<String>)
    ensures
        match path {
            Some(p) => url_path_and_query(url@) == Some(p@),
            None => url_path_and_query(url@) is None,
        },
{
    let uri: http::Uri = url.parse().ok()?;
    Some(uri.path_and_query()?.as_str().to_owned())
}

/// The four parts of a request as they were sent, before any check.
#[derive(Debug)]
pub struct RawRequest {
    pub method: String,
    pub url: String,
    pub headers: Vec<(String, String)>,
    pub body: String,
}

/// What a request is to a contract.
pub struct RequestView {
    pub method: Seq<char>,
    pub url: Seq<char>,
    pub headers: Seq<(Seq<char>, Seq<char>)>,
    pub body: Seq<char>,
}

impl View for RawRequest {
    type V = RequestView;

    open spec fn view(&self) -> RequestView {
        RequestView {
            method: self.method@,
            url: self.url@,
            headers: pair_views(self.headers@),
            body: self.body@,
        }
    }
}

/// The path of a request with the given url, where it has one that starts
/// with `/`.
pub open spec fn path_of(url: Seq<char>) -> Option<Seq<char>> {
    match url_path_and_query(url) {
        Some(path) => if path.len() > 0 && path[0] == '/' {
            Some(path)
        } else {
            None
        },
        None => None,
    }
}

/// What checking the parts of a request gives: the error of the first check
/// that fails, the method before the url.
pub open spec fn checked(raw: RequestView) -> Result<RequestView, DecodeError> {
    if !method_accepted(raw.method) {
        Err(DecodeError::BadMethod)
    } else if path_of(raw.url) is None {
        Err(DecodeError::BadUrl)
    } else {
        Ok(raw)
    }
}

/// A request whose method and url have been checked.
#[derive(Debug)]
pub struct Request {
    raw: RawRequest,
    path: String,
}

impl View for Request {
    type V = RequestView;

    closed spec fn view(&self) -> RequestView {
        self.raw@
    }
}

impl Request {
    /// The method is one, and the path kept is the one of the url.
    #[verifier::type_invariant]
    closed spec fn well_formed(self) -> bool {
        &&& method_accepted(self.raw.method@)
        &&& path_of(self.raw.url@) == Some(self.path@)
    }

    /// Checks the parts of a request. The four parts are kept as they came.
    pub fn new(raw: RawRequest) -> (request: Result<Request, DecodeError>)
        ensures
            match request {
                Ok(r) => checked(raw@) == Ok::<RequestView, DecodeError>(r@),
                Err(e) => checked(raw@) == Err::<RequestView, DecodeError>(e),
            },
    {
        if !method_is_accepted(raw.method.as_str()) {
            return Err(DecodeError::BadMethod);
        }
        match path_and_query_of(raw.url.as_str()) {
            None => Err(DecodeError::BadUrl),
            Some(path) => {
                let chars = chars_of(path.as_str());
                if chars.len() > 0 && chars[0] == '/' {
                    Ok(Request { raw, path })
                } else {
                    Err(DecodeError::BadUrl)
                }
            },
        }
    }

    /// The four parts, as they came.
    pub fn into_raw(self) -> (raw: RawRequest)
        ensures
            raw@ == self@,
            checked(raw@) == Ok::<RequestView, DecodeError>(raw@),
    {
        proof {
            use_type_invariant(&self);
        }
        self.raw
    }

    /// The method.
    pub fn method(&self) -> (method: &str)
        ensures
            method@ == self@.method,
            method_accepted(method@),
    {
        proof {
            use_type_invariant(self);
        }
        self.raw.method.as_str()
    }

    /// The url as it was sent.
    pub fn url(&self) -> (url: &str)
        ensures
            url@ == self@.url,
    {
        self.raw.url.as_str()
    }

    /// The headers, in the order in which they were sent.
    pub fn headers(&self) -> (headers: &Vec<(String, String)>)
        ensures
            pair_views(headers@) == self@.headers,
    {
        &self.raw.headers
    }

    /// The body.
    pub fn body(&self) -> (body: &str)
        ensures
            body@ == self@.body,
    {
        self.raw.body.as_str()
    }

    /// The path of the url, with its query. It is never empty and starts
    /// with `/`.
    pub fn path(&self) -> (path: &str)
        ensures
            path_of(self@.url) == Some(path@),
            path@.len() > 0,
            path@[0] == '/',
    {
        proof {
            use_type_invariant(self);
        }
        self.path.as_str()
    }
}

/// Taking a request apart and checking the parts again gives the same
/// method, url, headers and body.
pub proof fn lemma_checked_parts_round_trip(raw: RequestView)
    requires
        checked(raw) is Ok,
    ensures
        checked(checked(raw)->Ok_0) == Ok::<RequestView, DecodeError>(raw),
{
}

} // verus!
