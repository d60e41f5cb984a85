//! The URIs that calls go to.

use vstd::prelude::*;
use crate::error::{ConnectError, ErrorCode};
use crate::error;
use crate::text;

verus! {

/// What reading a text as a URI gives: the URI's normal form, or a message.
pub uninterp spec fn uri_parsed(s: Seq<char>) -> Result<Seq<char>, Seq<char>>;

/// The scheme of a URI in its normal form.
pub uninterp spec fn uri_scheme(s: Seq<char>) -> Option<Seq<char>>;

/// `http::Uri::from_str` and the texts of its outcome: whether a text is a URI,
/// how the URI is written, and what is wrong otherwise, depends on the text
/// alone.
#[verifier::external_body]
fn normalize(s: &str) -> (r: Result<String, String>)
    ensures
        match r {
            Ok(t) => uri_parsed(s@) == Ok::<Seq<char>, Seq<char>>(t@),
            Err(e) => uri_parsed(s@) == Err::<Seq<char>, Seq<char>>(e@),
        },
{
    match s.parse::<http::Uri>() {
        Ok(u) => Ok(u.to_string()),
        Err(e) => Err(e.to_string()),
    }
}

/// `http::Uri::scheme_str`: which scheme a URI has, if any, depends on its text
/// alone.
#[verifier::external_body]
fn scheme_of(s: &str) -> (r: Option<String>)
    ensures
        match r {
            Some(t) => uri_scheme(s@) == Some(t@),
            None => uri_scheme(s@) is None,
        },
{
    s.parse::<http::Uri>().ok().and_then(|u| u.scheme_str().map(|t| t.to_owned()))
}

/// A URI in its normal form.
#[derive(Debug)]
pub struct Uri {
    normal: String,
}

impl View for Uri {
    type V = Seq<char>;

    closed spec fn view(&self) -> Seq<char> {
        self.normal@
    }
}

impl Clone for Uri {
    fn clone(&self) -> (r: Self)
        ensures
            r@ == self@,
    {
        Uri { normal: self.normal.clone() }
    }
}

impl std::str::FromStr for Uri {
    type Err = String;

    /// Reads a URI.
    fn from_str(s: &str) -> (r: Result<Self, Self::Err>)
        ensures
            match r {
                Ok(u) => uri_parsed(s@) == Ok::<Seq<char>, Seq<char>>(u@),
                Err(e) => uri_parsed(s@) == Err::<Seq<char>, Seq<char>>(e@),
            },
    {
        Uri::parse(s)
    }
}

impl Uri {
    /// Reads a URI.
    pub fn parse(s: &str) -> (r: Result<Uri, String>)
        ensures
            match r {
                Ok(u) => uri_parsed(s@) == Ok::<Seq<char>, Seq<char>>(u@),
                Err(e) => uri_parsed(s@) == Err::<Seq<char>, Seq<char>>(e@),
            },
    {
        match normalize(s) {
            Ok(normal) => Ok(Uri { normal }),
            Err(e) => Err(e),
        }
    }

    /// The URI as text.
    pub fn to_string(&self) -> (r: String)
        ensures
            r@ == self@,
    {
        self.normal.clone()
    }

    /// The URI's scheme, if it has one.
    pub fn scheme(&self) -> (r: Option<String>)
        ensures
            match r {
                Some(t) => uri_scheme(self@) == Some(t@),
                None => uri_scheme(self@) is None,
            },
    {
        scheme_of(self.normal.as_str())
    }
}

/// The text of the URI of a method: the base without slashes at its end, the
/// service and the method.
pub open spec fn method_path(base: Seq<char>, service: Seq<char>, method: Seq<char>) -> Seq<char> {
    text::without_trailing(base, '/') + "/"@ + service + "/"@ + method
}

/// The URI of a method with what may follow it, or the error when it is none.
pub open spec fn call_uri(text: Seq<char>, complaint: Seq<char>) -> Result<
    Seq<char>,
    error::ErrorView,
> {
    match uri_parsed(text) {
        Ok(u) => Ok(u),
        Err(e) => Err(error::plain_error(ErrorCode::Internal, complaint + e)),
    }
}

/// The URI of a method.
pub open spec fn method_uri(base: Seq<char>, service: Seq<char>, method: Seq<char>) -> Result<
    Seq<char>,
    error::ErrorView,
> {
    call_uri(method_path(base, service, method), "invalid URI: "@)
}

/// Writes the text of the URI of a method.
pub fn build_method_path(base: &Uri, service: &str, method: &str) -> (r: String)
    ensures
        r@ == method_path(base@, service@, method@),
{
    let chars = text::chars_of(base.normal.as_str());
    let end = text::trailing_start(chars.as_slice(), '/');
    let mut s = text::string_of(vstd::slice::slice_subrange(chars.as_slice(), 0, end));
    assert(s@ =~= text::without_trailing(base@, '/'));
    s.push_str("/");
    s.push_str(service);
    s.push_str("/");
    s.push_str(method);
    s
}

/// What reading the URI of a call gave, as the call sees it.
pub fn uri_or_error(parsed: Result<Uri, String>, complaint: &str) -> (r: Result<Uri, ConnectError>)
    ensures
        match parsed {
            Ok(u) => r is Ok && r->Ok_0@ == u@,
            Err(e) => r is Err && r->Err_0@ == error::plain_error(
                ErrorCode::Internal,
                complaint@ + e@,
            ),
        },
{
    match parsed {
        Ok(u) => Ok(u),
        Err(e) => Err(ConnectError::internal(text::join2(complaint, e.as_str()).as_str())),
    }
}

/// The outcome of building a URI, in mathematical terms.
pub open spec fn uri_outcome(r: Result<Uri, ConnectError>) -> Result<Seq<char>, error::ErrorView> {
    match r {
        Ok(u) => Ok(u@),
        Err(e) => Err(e@),
    }
}

/// Builds the URI of a method.
pub fn build_method_uri(base: &Uri, service: &str, method: &str) -> (r: Result<Uri, ConnectError>)
    ensures
        uri_outcome(r) == method_uri(base@, service@, method@),
{
    uri_or_error(Uri::parse(build_method_path(base, service, method).as_str()), "invalid URI: ")
}

/// The path of a method does not depend on slashes at the end of the base.
pub proof fn base_slash_is_ignored(base: Seq<char>, service: Seq<char>, method: Seq<char>)
    ensures
        method_path(base.push('/'), service, method) == method_path(base, service, method),
{
    assert(base.push('/').drop_last() =~= base);
}

} // verus!
