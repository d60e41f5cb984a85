//! Transports: the wrapper round a service, the options of the built-in HTTP
//! client, and which URIs each kind of client accepts.

use std::time::Duration;
use vstd::prelude::*;
use crate::error::{ConnectError, ErrorCode};
use crate::error;
use crate::text;
use crate::uri::Uri;
use crate::uri;

verus! {

/// A client transport made of a service.
#[derive(Clone)]
pub struct ServiceTransport<S> {
    service: S,
}

impl<S> ServiceTransport<S> {
    /// The service that the transport is made of.
    pub closed spec fn service(self) -> S {
        self.service
    }

    /// A transport made of a service.
    pub fn new(service: S) -> (r: Self)
        ensures
            r.service() == service,
    {
        ServiceTransport { service }
    }

    /// The service.
    pub fn inner(&self) -> (r: &S)
        ensures
            *r == self.service(),
    {
        &self.service
    }

    /// The service, to be changed in place.
    pub fn inner_mut(&mut self) -> (r: &mut S)
        ensures
            *r == old(self).service(),
            final(self).service() == *final(r),
    {
        &mut self.service
    }

    /// Takes the service out of the transport.
    pub fn into_inner(self) -> (r: S)
        ensures
            r == self.service(),
    {
        self.service
    }
}

/// The options of the built-in HTTP client's connector.
#[derive(Debug, Clone)]
pub struct HttpClientBuilder {
    connect_timeout: Option<Duration>,
}

impl Default for HttpClientBuilder {
    fn default() -> (r: Self)
        ensures
            r.tcp_bound() is None,
    {
        HttpClientBuilder { connect_timeout: None }
    }
}

impl HttpClientBuilder {
    /// The bound on the TCP connect phase.
    pub closed spec fn tcp_bound(self) -> Option<Duration> {
        self.connect_timeout
    }

    /// The bound on the TCP connect phase, if one was set.
    pub fn connect_bound(&self) -> (r: Option<Duration>)
        ensures
            r == self.tcp_bound(),
    {
        self.connect_timeout
    }

    /// Bounds the TCP connect phase. Without a bound the system's own applies.
    pub fn connect_timeout(self, dur: Duration) -> (r: Self)
        ensures
            r.tcp_bound() == Some(dur),
    {
        let mut builder = self;
        builder.connect_timeout = Some(dur);
        builder
    }
}

/// The kinds of the built-in HTTP client.
#[derive(Debug, Clone, Copy, PartialEq, Eq, Structural)]
pub enum ClientMode {
    /// Cleartext connections.
    Plaintext,
    /// TLS connections.
    Tls,
}

impl ClientMode {
    /// The error for a URI with the scheme of the other kind, if it has it.
    pub open spec fn refusal(self, scheme: Option<Seq<char>>) -> Option<error::ErrorView> {
        match self {
            ClientMode::Plaintext => if scheme == Some("https"@) {
                Some(
                    error::plain_error(
                        ErrorCode::InvalidArgument,
                        "HttpClient::plaintext() received https:// URI; use HttpClient::with_tls for TLS"@,
                    ),
                )
            } else {
                None
            },
            ClientMode::Tls => if scheme == Some("http"@) {
                Some(
                    error::plain_error(
                        ErrorCode::InvalidArgument,
                        "HttpClient::with_tls() received http:// URI; use HttpClient::plaintext for cleartext"@,
                    ),
                )
            } else {
                None
            },
        }
    }

    /// The client's name for debugging.
    pub fn as_str(self) -> (r: &'static str)
        ensures
            r@ == (match self {
                ClientMode::Plaintext => "plaintext"@,
                ClientMode::Tls => "tls"@,
            }),
    {
        match self {
            ClientMode::Plaintext => "plaintext",
            ClientMode::Tls => "tls",
        }
    }

    /// Refuses a scheme that belongs to the other kind of client, so that a
    /// request never goes out in cleartext where TLS was meant, or the other
    /// way round.
    pub fn check_scheme(self, scheme: Option<&str>) -> (r: Result<(), ConnectError>)
        ensures
            match self.refusal(
                match scheme {
                    Some(s) => Some(s@),
                    None => None,
                },
            ) {
                None => r is Ok,
                Some(e) => r is Err && r->Err_0@ == e,
            },
    {
        if let Some(s) = scheme {
            match self {
                ClientMode::Plaintext => if text::text_equal(s, "https") {
                    return Err(
                        ConnectError::invalid_argument(
                            "HttpClient::plaintext() received https:// URI; use HttpClient::with_tls for TLS",
                        ),
                    );
                },
                ClientMode::Tls => if text::text_equal(s, "http") {
                    return Err(
                        ConnectError::invalid_argument(
                            "HttpClient::with_tls() received http:// URI; use HttpClient::plaintext for cleartext",
                        ),
                    );
                },
            }
        }
        Ok(())
    }

    /// Refuses a URI whose scheme belongs to the other kind of client.
    pub fn check_uri(self, u: &Uri) -> (r: Result<(), ConnectError>)
        ensures
            match self.refusal(uri::uri_scheme(u@)) {
                None => r is Ok,
                Some(e) => r is Err && r->Err_0@ == e,
            },
    {
        match u.scheme() {
            Some(s) => self.check_scheme(Some(s.as_str())),
            None => self.check_scheme(None),
        }
    }

    /// A scheme is refused by at most one kind of client: cleartext clients
    /// refuse `https` alone, TLS clients `http` alone.
    pub proof fn refusals_are_exclusive(scheme: Option<Seq<char>>)
        ensures
            (ClientMode::Plaintext.refusal(scheme) is Some) == (scheme == Some("https"@)),
            (ClientMode::Tls.refusal(scheme) is Some) == (scheme == Some("http"@)),
            ClientMode::Plaintext.refusal(scheme) is None || ClientMode::Tls.refusal(scheme) is None,
    {
        reveal_strlit("http");
        reveal_strlit("https");
        assert("http"@.len() != "https"@.len());
    }
}

} // verus!
