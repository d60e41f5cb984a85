//! The configuration of a client, the options of a single call, and how the
//! two are combined.

use std::time::Duration;
use vstd::prelude::*;
use crate::compression::{CompressionPolicy, CompressionRegistry};
use crate::envelope;
use crate::error::{ConnectError, ErrorCode};
use crate::error;
use crate::headers::{HeaderField, ToHeaderValue};
use crate::headers;
use crate::metadata;
use crate::protocol::{CodecFormat, Protocol};
use crate::uri::Uri;

verus! {

/// The configuration of a client. It is made with [`ClientConfig::new`] and the
/// `with_*` methods and read with the methods of the same names.
#[derive(Debug)]
#[non_exhaustive]
pub struct ClientConfig {
    pub base_uri: Uri,
    pub protocol: Protocol,
    pub codec_format: CodecFormat,
    pub compression: CompressionRegistry,
    pub request_compression: Option<String>,
    pub compression_policy: CompressionPolicy,
    pub default_timeout: Option<Duration>,
    pub default_max_message_size: Option<usize>,
    pub default_headers: http::HeaderMap,
}

/// A configuration in mathematical terms.
#[verifier::ext_equal]
pub struct ConfigView {
    pub base_uri: Seq<char>,
    pub protocol: Protocol,
    pub codec_format: CodecFormat,
    pub compression: CompressionRegistry,
    pub request_compression: Option<Seq<char>>,
    pub compression_policy: CompressionPolicy,
    pub default_timeout: Option<Duration>,
    pub default_max_message_size: Option<usize>,
    pub default_headers: headers::Headers,
}

impl View for ClientConfig {
    type V = ConfigView;

    open spec fn view(&self) -> ConfigView {
        ConfigView {
            base_uri: self.base_uri@,
            protocol: self.protocol,
            codec_format: self.codec_format,
            compression: self.compression,
            request_compression: error::text_of(self.request_compression),
            compression_policy: self.compression_policy,
            default_timeout: self.default_timeout,
            default_max_message_size: self.default_max_message_size,
            default_headers: headers::header_contents(self.default_headers),
        }
    }
}

impl Clone for ClientConfig {
    fn clone(&self) -> (r: Self)
        ensures
            r@ == self@,
    {
        ClientConfig {
            base_uri: self.base_uri.clone(),
            protocol: self.protocol,
            codec_format: self.codec_format,
            compression: self.compression,
            request_compression: error::copy_text(&self.request_compression),
            compression_policy: self.compression_policy,
            default_timeout: self.default_timeout,
            default_max_message_size: self.default_max_message_size,
            default_headers: headers::copy_headers(&self.default_headers),
        }
    }
}

/// Some headers with one more; unchanged when the name or the value cannot be
/// part of a header.
pub open spec fn with_given(
    h: headers::Headers,
    name: Seq<char>,
    value: (Seq<u8>, bool),
) -> headers::Headers {
    match headers::header_name_of(name) {
        Some(n) => if headers::is_header_value(value.0) {
            headers::with_value(h, n, value)
        } else {
            h
        },
        None => h,
    }
}

/// Whether a header can be added to some headers.
pub open spec fn can_take(h: headers::Headers, name: Seq<char>, value: Seq<u8>) -> bool {
    headers::header_name_of(name) is Some && headers::is_header_value(value) ==> headers::has_room(
        h,
    )
}

/// Makes a header field. Where that fails, tells whether the name was valid.
fn given_field<V: ToHeaderValue>(name: &str, value: V) -> (r: Result<HeaderField, bool>)
    ensures
        match r {
            Ok(f) => {
                &&& f.wf()
                &&& headers::header_name_of(name@) == Some(f.name@)
                &&& headers::is_header_value(value.given().0)
                &&& f@.1 == value.given()
            },
            Err(name_is_valid) => {
                &&& name_is_valid == (headers::header_name_of(name@) is Some)
                &&& name_is_valid ==> !headers::is_header_value(value.given().0)
            },
        },
{
    proof {
        headers::header_names_are_canonical(name@);
    }
    match headers::parse_header_name(name) {
        None => Err(false),
        Some(name) => match value.to_header_value() {
            None => Err(true),
            Some((value, sensitive)) => Ok(HeaderField { name, value, sensitive }),
        },
    }
}

impl ClientConfig {
    /// A configuration with a base URI: the Connect protocol with protobuf
    /// messages, the default compressions, and nothing else set.
    pub fn new(base_uri: Uri) -> (r: Self)
        ensures
            r@ == (ConfigView {
                base_uri: base_uri@,
                protocol: Protocol::Connect,
                codec_format: CodecFormat::Proto,
                compression: CompressionRegistry { gzip: true },
                request_compression: None,
                compression_policy: CompressionPolicy {
                    enabled: true,
                    min_size: crate::compression::DEFAULT_MIN_SIZE,
                },
                default_timeout: None,
                default_max_message_size: None,
                default_headers: headers::no_headers(),
            }),
    {
        ClientConfig {
            base_uri,
            protocol: Protocol::Connect,
            codec_format: CodecFormat::Proto,
            compression: CompressionRegistry::default(),
            request_compression: None,
            compression_policy: CompressionPolicy::default(),
            default_timeout: None,
            default_max_message_size: None,
            default_headers: headers::new_headers(),
        }
    }

    /// Sets the wire protocol.
    #[must_use]
    pub fn with_protocol(self, protocol: Protocol) -> (r: Self)
        ensures
            r@ == (ConfigView { protocol, ..self@ }),
    {
        let mut config = self;
        config.protocol = protocol;
        config
    }

    /// Sets the message codec.
    #[must_use]
    pub fn with_codec_format(self, format: CodecFormat) -> (r: Self)
        ensures
            r@ == (ConfigView { codec_format: format, ..self@ }),
    {
        let mut config = self;
        config.codec_format = format;
        config
    }

    /// Uses JSON messages.
    #[must_use]
    pub fn json(self) -> (r: Self)
        ensures
            r@ == (ConfigView { codec_format: CodecFormat::Json, ..self@ }),
    {
        self.with_codec_format(CodecFormat::Json)
    }

    /// Uses protobuf messages.
    #[must_use]
    pub fn proto(self) -> (r: Self)
        ensures
            r@ == (ConfigView { codec_format: CodecFormat::Proto, ..self@ }),
    {
        self.with_codec_format(CodecFormat::Proto)
    }

    /// Sets the encodings that the client knows.
    #[must_use]
    pub fn with_compression(self, registry: CompressionRegistry) -> (r: Self)
        ensures
            r@ == (ConfigView { compression: registry, ..self@ }),
    {
        let mut config = self;
        config.compression = registry;
        config
    }

    /// Compresses requests with an encoding.
    #[must_use]
    pub fn compress_requests(self, encoding: &str) -> (r: Self)
        ensures
            r@ == (ConfigView { request_compression: Some(encoding@), ..self@ }),
    {
        let mut config = self;
        config.request_compression = Some(encoding.to_owned());
        config
    }

    /// Sets when messages are compressed.
    #[must_use]
    pub fn with_compression_policy(self, policy: CompressionPolicy) -> (r: Self)
        ensures
            r@ == (ConfigView { compression_policy: policy, ..self@ }),
    {
        let mut config = self;
        config.compression_policy = policy;
        config
    }

    /// Sets the timeout of calls that have none of their own.
    #[must_use]
    pub fn with_default_timeout(self, timeout: Duration) -> (r: Self)
        ensures
            r@ == (ConfigView { default_timeout: Some(timeout), ..self@ }),
    {
        let mut config = self;
        config.default_timeout = Some(timeout);
        config
    }

    /// Sets the largest message size of calls that have none of their own.
    #[must_use]
    pub fn with_default_max_message_size(self, size: usize) -> (r: Self)
        ensures
            r@ == (ConfigView { default_max_message_size: Some(size), ..self@ }),
    {
        let mut config = self;
        config.default_max_message_size = Some(size);
        config
    }

    /// Adds a header to every call. A name or value that cannot be part of a
    /// header is ignored.
    #[must_use]
    pub fn with_default_header<V: ToHeaderValue>(self, name: &str, value: V) -> (r: Self)
        requires
            can_take(self@.default_headers, name@, value.given().0),
        ensures
            r@ == (ConfigView {
                default_headers: with_given(self@.default_headers, name@, value.given()),
                ..self@
            }),
    {
        let mut config = self;
        if let Ok(f) = given_field(name, value) {
            headers::append_field(&mut config.default_headers, &f);
        }
        config
    }

    /// Sets the headers of every call, replacing all earlier ones.
    #[must_use]
    pub fn with_default_headers(self, headers: http::HeaderMap) -> (r: Self)
        ensures
            r@ == (ConfigView { default_headers: headers::header_contents(headers), ..self@ }),
    {
        let mut config = self;
        config.default_headers = headers;
        config
    }

    /// The base URI.
    pub fn base_uri(&self) -> (r: &Uri)
        ensures
            r@ == self@.base_uri,
    {
        &self.base_uri
    }

    /// The wire protocol.
    pub fn protocol(&self) -> (r: Protocol)
        ensures
            r == self@.protocol,
    {
        self.protocol
    }

    /// The message codec.
    pub fn codec_format(&self) -> (r: CodecFormat)
        ensures
            r == self@.codec_format,
    {
        self.codec_format
    }

    /// The encodings that the client knows.
    pub fn compression(&self) -> (r: &CompressionRegistry)
        ensures
            *r == self@.compression,
    {
        &self.compression
    }

    /// The encoding of requests, if they are compressed.
    pub fn request_compression(&self) -> (r: Option<&str>)
        ensures
            match r {
                Some(s) => self@.request_compression == Some(s@),
                None => self@.request_compression is None,
            },
    {
        match &self.request_compression {
            Some(s) => Some(s.as_str()),
            None => None,
        }
    }

    /// When messages are compressed.
    pub fn compression_policy(&self) -> (r: CompressionPolicy)
        ensures
            r == self@.compression_policy,
    {
        self.compression_policy
    }

    /// The timeout of calls that have none of their own.
    pub fn default_timeout(&self) -> (r: Option<Duration>)
        ensures
            r == self@.default_timeout,
    {
        self.default_timeout
    }

    /// The largest message size of calls that have none of their own.
    pub fn default_max_message_size(&self) -> (r: Option<usize>)
        ensures
            r == self@.default_max_message_size,
    {
        self.default_max_message_size
    }

    /// The headers of every call.
    pub fn default_headers(&self) -> (r: &http::HeaderMap)
        ensures
            headers::header_contents(*r) == self@.default_headers,
    {
        &self.default_headers
    }
}

/// The options of a single call. They are made with [`CallOptions::default`]
/// and the `with_*` methods and read with the methods of the same names.
#[derive(Debug)]
#[non_exhaustive]
pub struct CallOptions {
    pub headers: http::HeaderMap,
    pub timeout: Option<Duration>,
    pub max_message_size: Option<usize>,
    pub compress: Option<bool>,
}

/// Options in mathematical terms.
#[verifier::ext_equal]
pub struct OptionsView {
    pub headers: headers::Headers,
    pub timeout: Option<Duration>,
    pub max_message_size: Option<usize>,
    pub compress: Option<bool>,
}

impl View for CallOptions {
    type V = OptionsView;

    open spec fn view(&self) -> OptionsView {
        OptionsView {
            headers: headers::header_contents(self.headers),
            timeout: self.timeout,
            max_message_size: self.max_message_size,
            compress: self.compress,
        }
    }
}

impl OptionsView {
    /// The most bytes a message may have under these options.
    pub open spec fn message_limit(self) -> usize {
        match self.max_message_size {
            Some(n) => n,
            None => envelope::DEFAULT_MAX_MESSAGE_SIZE,
        }
    }
}

impl Clone for CallOptions {
    fn clone(&self) -> (r: Self)
        ensures
            r@ == self@,
    {
        CallOptions {
            headers: headers::copy_headers(&self.headers),
            timeout: self.timeout,
            max_message_size: self.max_message_size,
            compress: self.compress,
        }
    }
}

impl Default for CallOptions {
    fn default() -> (r: Self)
        ensures
            r@ == (OptionsView {
                headers: headers::no_headers(),
                timeout: None,
                max_message_size: None,
                compress: None,
            }),
    {
        CallOptions {
            headers: headers::new_headers(),
            timeout: None,
            max_message_size: None,
            compress: None,
        }
    }
}

impl CallOptions {
    /// Sets the timeout.
    #[must_use]
    pub fn with_timeout(self, timeout: Duration) -> (r: Self)
        ensures
            r@ == (OptionsView { timeout: Some(timeout), ..self@ }),
    {
        let mut options = self;
        options.timeout = Some(timeout);
        options
    }

    /// Adds a header. A name or value that cannot be part of a header is
    /// ignored.
    #[must_use]
    pub fn with_header<V: ToHeaderValue>(self, name: &str, value: V) -> (r: Self)
        requires
            can_take(self@.headers, name@, value.given().0),
        ensures
            r@ == (OptionsView { headers: with_given(self@.headers, name@, value.given()), ..self@ }),
    {
        let mut options = self;
        if let Ok(f) = given_field(name, value) {
            headers::append_field(&mut options.headers, &f);
        }
        options
    }

    /// Adds a header, or fails with `internal` when the name or, else, the
    /// value cannot be part of a header.
    pub fn try_with_header<V: ToHeaderValue>(self, name: &str, value: V) -> (r: Result<Self, ConnectError>)
        requires
            can_take(self@.headers, name@, value.given().0),
        ensures
            match headers::header_name_of(name@) {
                None => r is Err && r->Err_0@ == error::plain_error(
                    ErrorCode::Internal,
                    "invalid header name"@,
                ),
                Some(_) => if headers::is_header_value(value.given().0) {
                    r is Ok && r->Ok_0@ == (OptionsView {
                        headers: with_given(self@.headers, name@, value.given()),
                        ..self@
                    })
                } else {
                    r is Err && r->Err_0@ == error::plain_error(
                        ErrorCode::Internal,
                        "invalid header value"@,
                    )
                },
            },
    {
        match given_field(name, value) {
            Ok(f) => {
                let mut options = self;
                headers::append_field(&mut options.headers, &f);
                Ok(options)
            },
            Err(true) => Err(ConnectError::internal("invalid header value")),
            Err(false) => Err(ConnectError::internal("invalid header name")),
        }
    }

    /// Adds headers one after the other.
    #[must_use]
    pub fn with_headers(self, fields: Vec<HeaderField>) -> (r: Self)
        requires
            forall|i: int| 0 <= i < fields@.len() ==> (#[trigger] fields@[i]).wf(),
            headers::has_room(
                headers::with_fields(self@.headers, headers::field_views(fields@)),
            ),
        ensures
            r@ == (OptionsView {
                headers: headers::with_fields(self@.headers, headers::field_views(fields@)),
                ..self@
            }),
    {
        let mut options = self;
        metadata::append_all(&mut options.headers, &fields);
        options
    }

    /// Sets the largest message size, after decompression.
    #[must_use]
    pub fn with_max_message_size(self, size: usize) -> (r: Self)
        ensures
            r@ == (OptionsView { max_message_size: Some(size), ..self@ }),
    {
        let mut options = self;
        options.max_message_size = Some(size);
        options
    }

    /// Forces compression or switches it off, whatever the policy says.
    #[must_use]
    pub fn with_compress(self, enabled: bool) -> (r: Self)
        ensures
            r@ == (OptionsView { compress: Some(enabled), ..self@ }),
    {
        let mut options = self;
        options.compress = Some(enabled);
        options
    }

    /// The headers of the call, which replace protocol headers of the same
    /// names.
    pub fn headers(&self) -> (r: &http::HeaderMap)
        ensures
            headers::header_contents(*r) == self@.headers,
    {
        &self.headers
    }

    /// The timeout.
    pub fn timeout(&self) -> (r: Option<Duration>)
        ensures
            r == self@.timeout,
    {
        self.timeout
    }

    /// The largest message size, after decompression.
    pub fn max_message_size(&self) -> (r: Option<usize>)
        ensures
            r == self@.max_message_size,
    {
        self.max_message_size
    }

    /// Whether compression is forced or switched off.
    pub fn compress(&self) -> (r: Option<bool>)
        ensures
            r == self@.compress,
    {
        self.compress
    }

    /// The most bytes a message may have under these options.
    pub fn message_limit(&self) -> (r: usize)
        ensures
            r == self@.message_limit(),
    {
        match self.max_message_size {
            Some(n) => n,
            None => envelope::DEFAULT_MAX_MESSAGE_SIZE,
        }
    }
}

/// The options of a call with the defaults of its configuration filled in: what
/// the call sets, else what the configuration sets. Headers of the call replace
/// those of the configuration name by name.
pub open spec fn effective(config: ConfigView, options: OptionsView) -> OptionsView {
    OptionsView {
        headers: metadata::merged(config.default_headers, options.headers),
        timeout: match options.timeout {
            Some(t) => Some(t),
            None => config.default_timeout,
        },
        max_message_size: match options.max_message_size {
            Some(n) => Some(n),
            None => config.default_max_message_size,
        },
        compress: options.compress,
    }
}

/// Whether the headers of a configuration and those of a call can be merged.
pub open spec fn can_merge(config: headers::Headers, options: headers::Headers) -> bool {
    config == headers::no_headers() || options == headers::no_headers() || headers::has_room(
        metadata::merged(config, options),
    )
}

/// Fills in the defaults of a configuration.
pub fn effective_options(config: &ClientConfig, options: CallOptions) -> (r: CallOptions)
    requires
        can_merge(config@.default_headers, options@.headers),
    ensures
        r@ == effective(config@, options@),
{
    CallOptions {
        timeout: match options.timeout {
            Some(t) => Some(t),
            None => config.default_timeout,
        },
        max_message_size: match options.max_message_size {
            Some(n) => Some(n),
            None => config.default_max_message_size,
        },
        compress: options.compress,
        headers: metadata::merge_headers(&config.default_headers, options.headers),
    }
}

/// Headers of a call win over those of the configuration: a name that the call
/// sets has the call's values and no others; every other name of the
/// configuration keeps its values; and no other name appears.
pub proof fn call_headers_win(config: ConfigView, options: OptionsView, name: Seq<char>)
    ensures
        ({
            let h = effective(config, options).headers;
            &&& options.headers.dom().contains(name) ==> h.dom().contains(name) && h[name]
                == options.headers[name]
            &&& !options.headers.dom().contains(name) && config.default_headers.dom().contains(name)
                ==> h.dom().contains(name) && h[name] == config.default_headers[name]
            &&& h.dom().contains(name) <==> options.headers.dom().contains(name)
                || config.default_headers.dom().contains(name)
        }),
{
}

/// Filling in the defaults twice is the same as doing it once.
pub proof fn effective_is_idempotent(config: ConfigView, options: OptionsView)
    ensures
        effective(config, effective(config, options)) == effective(config, options),
{
    let once = effective(config, options);
    assert(metadata::merged(config.default_headers, once.headers) =~= once.headers);
}

} // verus!
