//! What a call sends: the complete HTTP request of each kind of RPC.

use vstd::prelude::*;
use crate::compression;
use crate::config::{CallOptions, ClientConfig};
use crate::config;
use crate::encoding;
use crate::envelope::EnvelopeEncoder;
use crate::envelope;
use crate::error::{ConnectError, ErrorCode};
use crate::error;
use crate::headers;
use crate::metadata;
use crate::protocol::{CodecFormat, Protocol};
use crate::request;
use crate::text;
use crate::uri::Uri;
use crate::uri;

verus! {

/// The HTTP methods of RPCs.
#[derive(Debug, Clone, Copy, PartialEq, Eq, Structural)]
pub enum HttpMethod {
    Get,
    Post,
}

/// A complete HTTP request.
#[derive(Debug)]
pub struct HttpRequest {
    pub method: HttpMethod,
    pub uri: Uri,
    pub headers: http::HeaderMap,
    pub body: Vec<u8>,
}

/// A request in mathematical terms.
#[verifier::ext_equal]
pub struct RequestView {
    pub method: HttpMethod,
    pub uri: Seq<char>,
    pub headers: headers::Headers,
    pub body: Seq<u8>,
}

impl View for HttpRequest {
    type V = RequestView;

    open spec fn view(&self) -> RequestView {
        RequestView {
            method: self.method,
            uri: self.uri@,
            headers: headers::header_contents(self.headers),
            body: self.body@,
        }
    }
}

/// A call to be sent: its request, and its options with the defaults of the
/// configuration filled in.
#[derive(Debug)]
pub struct OutgoingCall {
    pub request: HttpRequest,
    pub options: CallOptions,
}

/// A call in mathematical terms.
#[verifier::ext_equal]
pub struct CallView {
    pub request: RequestView,
    pub options: config::OptionsView,
}

impl View for OutgoingCall {
    type V = CallView;

    open spec fn view(&self) -> CallView {
        CallView { request: self.request@, options: self.options@ }
    }
}

/// The outcome of building a call, in mathematical terms.
pub open spec fn call_outcome(r: Result<OutgoingCall, ConnectError>) -> Result<
    CallView,
    error::ErrorView,
> {
    match r {
        Ok(c) => Ok(c@),
        Err(e) => Err(e@),
    }
}

/// The most headers a protocol adds to a request.
pub const MAX_PROTOCOL_HEADERS: usize = 5;

/// Whether a header map is sure to hold the headers of a call: those of the
/// configuration, of the call and of the protocol.
pub open spec fn headers_fit(config: config::ConfigView, options: config::OptionsView) -> bool {
    let h = config::effective(config, options).headers;
    &&& config::can_merge(config.default_headers, options.headers)
    &&& h.dom().finite()
    &&& h.dom().len() + MAX_PROTOCOL_HEADERS <= headers::MAX_HEADER_NAMES
}

/// Whether the headers of a configuration and of a call are few enough for a
/// header map to be sure to hold them together with those of the protocol.
pub open spec fn few_headers(config: headers::Headers, options: headers::Headers) -> bool {
    &&& config.dom().finite() && options.dom().finite()
    &&& config.dom().len() + options.dom().len() + MAX_PROTOCOL_HEADERS
        <= headers::MAX_HEADER_NAMES
}

/// Few headers fit.
pub proof fn few_headers_fit(config: config::ConfigView, options: config::OptionsView)
    requires
        few_headers(config.default_headers, options.headers),
    ensures
        headers_fit(config, options),
{
    let h = config::effective(config, options).headers;
    assert(h.dom() =~= config.default_headers.dom().union(options.headers.dom()));
    vstd::set_lib::lemma_len_union(config.default_headers.dom(), options.headers.dom());
}

/// Tells whether the headers of a call are few. A call whose headers are can be
/// built.
pub fn check_headers(config: &ClientConfig, options: &CallOptions) -> (r: bool)
    ensures
        r == few_headers(config@.default_headers, options@.headers),
        r ==> headers_fit(config@, options@),
{
    let own: usize = headers::count_names(&config.default_headers);
    let given: usize = headers::count_names(&options.headers);
    let most: usize = headers::MAX_HEADER_NAMES - MAX_PROTOCOL_HEADERS;
    let r = own <= most && given <= most - own;
    proof {
        if r {
            few_headers_fit(config@, options@);
        }
    }
    r
}

/// The headers of a request: those of the protocol, with the caller's in place
/// of any with the same name.
pub open spec fn request_headers(
    fields: Seq<(Seq<char>, (Seq<u8>, bool))>,
    options: config::OptionsView,
) -> headers::Headers {
    metadata::merged(headers::with_fields(headers::no_headers(), fields), options.headers)
}

/// The protocol's headers, and with them all headers of the request, fit into
/// a header map.
proof fn request_headers_fit(
    config: config::ConfigView,
    options: config::OptionsView,
    fields: Seq<(Seq<char>, (Seq<u8>, bool))>,
)
    requires
        headers_fit(config, options),
        fields.len() <= MAX_PROTOCOL_HEADERS,
    ensures
        headers::has_room(headers::with_fields(headers::no_headers(), fields)),
        headers::has_room(request_headers(fields, config::effective(config, options))),
{
    let p = headers::with_fields(headers::no_headers(), fields);
    let h = config::effective(config, options).headers;
    metadata::with_fields_names(headers::no_headers(), fields);
    assert(headers::no_headers().dom().len() == 0) by {
        assert(headers::no_headers().dom() =~= Set::empty());
    }
    let all = request_headers(fields, config::effective(config, options));
    assert(all.dom() =~= p.dom().union(h.dom()));
    vstd::set_lib::lemma_len_union(p.dom(), h.dom());
}

/// What a message is sent as in a Connect unary call: as it is, or compressed
/// when the client compresses requests and the policy says so.
pub open spec fn packs(
    config: config::ConfigView,
    compress: Option<bool>,
    message: Seq<u8>,
    r: Result<(Seq<u8>, bool), error::ErrorView>,
) -> bool {
    if config.request_compression is Some && config.compression_policy.overridden(
        compress,
    ).applies(message.len()) {
        let enc = config.request_compression->Some_0;
        match r {
            Ok((body, compressed)) => compressed && config.compression.is_packed(
                enc,
                message,
                body,
            ),
            Err(e) => {
                &&& enc != "identity"@
                &&& !config.compression.knows(enc)
                &&& e == compression::CompressionRegistry::unknown_encoding(enc)
            },
        }
    } else {
        r == Ok::<(Seq<u8>, bool), error::ErrorView>((message, false))
    }
}

/// The outcome of packing a message, in mathematical terms.
pub open spec fn packed_outcome(r: Result<(Vec<u8>, bool), ConnectError>) -> Result<
    (Seq<u8>, bool),
    error::ErrorView,
> {
    match r {
        Ok((b, c)) => Ok((b@, c)),
        Err(e) => Err(e@),
    }
}

/// Compresses a message where the client and the policy say so.
fn pack_message(config: &ClientConfig, compress: Option<bool>, message: Vec<u8>) -> (r: Result<
    (Vec<u8>, bool),
    ConnectError,
>)
    ensures
        packs(config@, compress, message@, packed_outcome(r)),
{
    if let Some(encoding) = &config.request_compression {
        if config.compression_policy.with_override(compress).should_compress(message.len()) {
            return match config.compression.compress(encoding.as_str(), message.as_slice()) {
                Ok(packed) => Ok((packed, true)),
                Err(e) => Err(e),
            };
        }
    }
    Ok((message, false))
}

/// The encoder of a call's messages.
pub open spec fn call_encoder(
    config: config::ConfigView,
    compress: Option<bool>,
) -> envelope::EncoderView {
    envelope::EncoderView {
        compression: match config.request_compression {
            Some(enc) => Some((config.compression, enc)),
            None => None,
        },
        policy: config.compression_policy.overridden(compress),
    }
}

/// Makes the encoder of a call's messages.
pub fn message_encoder(config: &ClientConfig, compress: Option<bool>) -> (r: EnvelopeEncoder)
    ensures
        r@ == call_encoder(config@, compress),
{
    let compression = match &config.request_compression {
        Some(enc) => Some((config.compression, enc.as_str())),
        None => None,
    };
    EnvelopeEncoder::new(compression, config.compression_policy.with_override(compress))
}

/// The body of a unary call: in the Connect protocol the message itself,
/// compressed as a whole; in gRPC and gRPC-Web an envelope. The flag tells
/// whether the body as a whole is compressed.
pub open spec fn unary_body(
    config: config::ConfigView,
    compress: Option<bool>,
    message: Seq<u8>,
    r: Result<(Seq<u8>, bool), error::ErrorView>,
) -> bool {
    match config.protocol {
        Protocol::Connect => packs(config, compress, message, r),
        _ => match r {
            Ok((body, compressed)) => !compressed && call_encoder(config, compress).encodes(
                message,
                Ok(body),
            ),
            Err(e) => exists|cause: error::ErrorView|
                #![trigger cause.display()]
                call_encoder(config, compress).encodes(message, Err(cause)) && e
                    == error::plain_error(
                    ErrorCode::Internal,
                    "envelope encode failed: "@ + cause.display(),
                ),
        },
    }
}

/// Makes the body of a unary call.
fn build_unary_body(config: &ClientConfig, compress: Option<bool>, message: Vec<u8>) -> (r: Result<
    (Vec<u8>, bool),
    ConnectError,
>)
    ensures
        unary_body(config@, compress, message@, packed_outcome(r)),
{
    match config.protocol {
        Protocol::Connect => pack_message(config, compress, message),
        Protocol::Grpc | Protocol::GrpcWeb => {
            match message_encoder(config, compress).encode(message.as_slice()) {
                Ok(body) => Ok((body, false)),
                Err(e) => {
                    assert(call_encoder(config@, compress).encodes(message@, Err(e@)));
                    let m = text::join2("envelope encode failed: ", e.to_string().as_str());
                    Err(ConnectError::internal(m.as_str()))
                },
            }
        },
    }
}

/// The encoding that a body as a whole is compressed with.
pub open spec fn applied_encoding(config: config::ConfigView, compressed: bool) -> Option<
    Seq<char>,
> {
    if compressed {
        config.request_compression
    } else {
        None
    }
}

/// The request of a unary call, once its body is made.
pub open spec fn unary_request(
    config: config::ConfigView,
    options: config::OptionsView,
    uri: Seq<char>,
    body: Seq<u8>,
    compressed: bool,
) -> CallView {
    CallView {
        request: RequestView {
            method: HttpMethod::Post,
            uri,
            headers: request_headers(
                request::unary_fields(
                    config,
                    options.timeout,
                    applied_encoding(config, compressed),
                ),
                options,
            ),
            body,
        },
        options,
    }
}

/// Whether the name of the encoding of requests can be sent in a header.
pub open spec fn can_declare_encoding(config: config::ConfigView) -> bool {
    request::is_optional_value(config.request_compression)
}

/// Tells whether the name of the encoding of requests can be sent in a header.
fn check_encoding(config: &ClientConfig) -> (r: bool)
    ensures
        r == can_declare_encoding(config@),
{
    match &config.request_compression {
        Some(encoding) => headers::parse_header_value(encoding.as_str()).is_some(),
        None => true,
    }
}

/// The error for a request that would have to name an encoding which cannot be
/// sent in a header.
pub open spec fn unbuildable() -> error::ErrorView {
    error::plain_error(
        ErrorCode::Internal,
        "failed to build request: failed to parse header value"@,
    )
}

/// Makes the error for a request that cannot be built.
fn unbuildable_error() -> (r: ConnectError)
    ensures
        r@ == unbuildable(),
{
    ConnectError::internal("failed to build request: failed to parse header value")
}

/// What a unary call sends, once its body is made or could not be made. In gRPC
/// and gRPC-Web the encoding is named in a header whether or not it was applied.
pub open spec fn unary_result(
    config: config::ConfigView,
    options: config::OptionsView,
    uri: Seq<char>,
    body: Result<(Seq<u8>, bool), error::ErrorView>,
) -> Result<CallView, error::ErrorView> {
    match body {
        Ok((b, compressed)) => if config.protocol != Protocol::Connect && !can_declare_encoding(
            config,
        ) {
            Err(unbuildable())
        } else {
            Ok(unary_request(config, options, uri, b, compressed))
        },
        Err(e) => Err(e),
    }
}

/// Whether `r` is what a unary call sends to a URI.
pub open spec fn sends_unary(
    config: config::ConfigView,
    options: config::OptionsView,
    uri: Seq<char>,
    message: Seq<u8>,
    r: Result<CallView, error::ErrorView>,
) -> bool {
    exists|b: Result<(Seq<u8>, bool), error::ErrorView>|
        #![trigger unary_result(config, options, uri, b)]
        unary_body(config, options.compress, message, b) && r == unary_result(
            config,
            options,
            uri,
            b,
        )
}

/// Whether `r` is what a unary call sends: an error when the URI is none, else
/// the message's own error when it could not be encoded, else an error when it
/// could not be framed or compressed, else an error when its encoding cannot be
/// named in a header, else the request.
pub open spec fn is_unary_call(
    config: config::ConfigView,
    service: Seq<char>,
    method: Seq<char>,
    message: Result<Seq<u8>, error::ErrorView>,
    options: config::OptionsView,
    r: Result<CallView, error::ErrorView>,
) -> bool {
    let eff = config::effective(config, options);
    match (uri::method_uri(config.base_uri, service, method), message) {
        (Err(e), _) => r == Err::<CallView, error::ErrorView>(e),
        (Ok(_), Err(e)) => r == Err::<CallView, error::ErrorView>(e),
        (Ok(u), Ok(m)) => sends_unary(config, eff, u, m, r),
    }
}

/// Builds what a unary call sends. The message comes encoded, or with the error
/// that encoding it gave.
pub fn call_unary(
    config: &ClientConfig,
    service: &str,
    method: &str,
    message: Result<Vec<u8>, ConnectError>,
    options: CallOptions,
) -> (r: Result<OutgoingCall, ConnectError>)
    requires
        headers_fit(config@, options@),
    ensures
        is_unary_call(
            config@,
            service@,
            method@,
            compression::outcome_of(message),
            options@,
            call_outcome(r),
        ),
{
    let ghost given = options@;
    let ghost given_message = message;
    let options = config::effective_options(config, options);
    let uri = match uri::build_method_uri(&config.base_uri, service, method) {
        Ok(u) => u,
        Err(e) => {
            return Err(e);
        },
    };
    let message = match message {
        Ok(m) => m,
        Err(e) => {
            return Err(e);
        },
    };
    let ghost bytes = message@;
    assert(compression::outcome_of(given_message) == Ok::<Seq<u8>, error::ErrorView>(bytes));
    let packed = build_unary_body(config, options.compress, message);
    let ghost sent = unary_result(config@, options@, uri@, packed_outcome(packed));
    assert(sends_unary(config@, options@, uri@, bytes, sent));
    let (body, compressed) = match packed {
        Ok(p) => p,
        Err(e) => {
            return Err(e);
        },
    };
    if config.protocol != Protocol::Connect && !check_encoding(config) {
        return Err(unbuildable_error());
    }
    let applied = if compressed {
        config.request_compression()
    } else {
        None
    };
    proof {
        let fields = request::unary_fields(
            config@,
            options@.timeout,
            applied_encoding(config@, compressed),
        );
        request_headers_fit(config@, given, fields);
        if compressed {
            request::known_encodings_are_values();
        }
    }
    let own = request::add_unary_request_headers(
        headers::new_headers(),
        config,
        options.timeout,
        applied,
    );
    let headers = metadata::merge_headers(&own, headers::copy_headers(&options.headers));
    Ok(
        OutgoingCall {
            request: HttpRequest { method: HttpMethod::Post, uri, headers, body },
            options,
        },
    )
}

/// The message parameter of a GET request: base64 for binary messages and for
/// compressed ones, percent-encoding for JSON text.
pub open spec fn get_message(format: CodecFormat, payload: Seq<u8>, compressed: bool) -> Seq<
    char,
> {
    if uses_base64(format, compressed) {
        encoding::url_safe_base64(payload)
    } else {
        encoding::percent_encoded(payload)
    }
}

/// Whether the message parameter of a GET request is in base64.
pub open spec fn uses_base64(format: CodecFormat, compressed: bool) -> bool {
    format == CodecFormat::Proto || compressed
}

/// The query of a GET request.
pub open spec fn get_query(
    config: config::ConfigView,
    payload: Seq<u8>,
    compressed: bool,
) -> Seq<char> {
    let start = "connect=v1&encoding="@ + config.codec_format.name() + "&message="@ + get_message(
        config.codec_format,
        payload,
        compressed,
    );
    let marked = if uses_base64(config.codec_format, compressed) {
        start + "&base64=1"@
    } else {
        start
    };
    match applied_encoding(config, compressed) {
        Some(enc) => marked + "&compression="@ + enc,
        None => marked,
    }
}

/// The request of a GET call, once its message is packed.
pub open spec fn get_request(
    config: config::ConfigView,
    options: config::OptionsView,
    uri: Seq<char>,
) -> CallView {
    CallView {
        request: RequestView {
            method: HttpMethod::Get,
            uri,
            headers: request_headers(request::get_fields(config, options.timeout), options),
            body: Seq::empty(),
        },
        options,
    }
}

/// The text of the URI of a GET request.
pub open spec fn get_path(
    config: config::ConfigView,
    service: Seq<char>,
    method: Seq<char>,
    payload: Seq<u8>,
    compressed: bool,
) -> Seq<char> {
    uri::method_path(config.base_uri, service, method) + "?"@ + get_query(
        config,
        payload,
        compressed,
    )
}

/// The error for a GET call in a protocol other than Connect.
pub open spec fn get_needs_connect() -> error::ErrorView {
    error::plain_error(
        ErrorCode::InvalidArgument,
        "call_unary_get requires Protocol::Connect (gRPC/gRPC-Web are POST-only)"@,
    )
}

/// What a GET call sends, once its message is packed or could not be packed.
pub open spec fn get_result(
    config: config::ConfigView,
    service: Seq<char>,
    method: Seq<char>,
    options: config::OptionsView,
    packed: Result<(Seq<u8>, bool), error::ErrorView>,
) -> Result<CallView, error::ErrorView> {
    match packed {
        Err(e) => Err(e),
        Ok((payload, compressed)) => match uri::call_uri(
            get_path(config, service, method, payload, compressed),
            "invalid GET URI: "@,
        ) {
            Err(e) => Err(e),
            Ok(u) => Ok(get_request(config, options, u)),
        },
    }
}

/// Whether `r` is what a GET call sends: an error in any protocol but Connect,
/// else the message's own error when it could not be encoded, else an error
/// when it could not be compressed, else an error when the URI is none, else
/// the request.
pub open spec fn is_get_call(
    config: config::ConfigView,
    service: Seq<char>,
    method: Seq<char>,
    message: Result<Seq<u8>, error::ErrorView>,
    options: config::OptionsView,
    r: Result<CallView, error::ErrorView>,
) -> bool {
    let eff = config::effective(config, options);
    if config.protocol != Protocol::Connect {
        r == Err::<CallView, error::ErrorView>(get_needs_connect())
    } else {
        match message {
            Err(e) => r == Err::<CallView, error::ErrorView>(e),
            Ok(m) => exists|p: Result<(Seq<u8>, bool), error::ErrorView>|
                #![trigger get_result(config, service, method, eff, p)]
                packs(config, eff.compress, m, p) && r == get_result(
                    config,
                    service,
                    method,
                    eff,
                    p,
                ),
        }
    }
}

/// Writes the text of the URI of a GET request.
pub fn build_get_path(
    config: &ClientConfig,
    service: &str,
    method: &str,
    payload: &[u8],
    compressed: bool,
) -> (r: String)
    ensures
        r@ == get_path(config@, service@, method@, payload@, compressed),
{
    let use_base64 = match config.codec_format {
        CodecFormat::Proto => true,
        CodecFormat::Json => compressed,
    };
    let message = if use_base64 {
        encoding::encode_url_safe(payload)
    } else {
        encoding::percent_encode(payload)
    };
    let mut query = String::new();
    query.push_str("connect=v1&encoding=");
    query.push_str(config.codec_format.as_str());
    query.push_str("&message=");
    query.push_str(message.as_str());
    assert(query@ =~= "connect=v1&encoding="@ + config@.codec_format.name() + "&message="@
        + message@);
    if use_base64 {
        query.push_str("&base64=1");
    }
    if compressed {
        if let Some(enc) = &config.request_compression {
            query.push_str("&compression=");
            query.push_str(enc.as_str());
        }
    }
    let mut path = uri::build_method_path(&config.base_uri, service, method);
    path.push_str("?");
    path.push_str(query.as_str());
    path
}

/// Builds what an idempotent unary call sends as a GET request, in the Connect
/// protocol only. The message comes encoded, or with the error that encoding it
/// gave.
pub fn call_unary_get(
    config: &ClientConfig,
    service: &str,
    method: &str,
    message: Result<Vec<u8>, ConnectError>,
    options: CallOptions,
) -> (r: Result<OutgoingCall, ConnectError>)
    requires
        config@.protocol == Protocol::Connect ==> headers_fit(config@, options@),
    ensures
        is_get_call(
            config@,
            service@,
            method@,
            compression::outcome_of(message),
            options@,
            call_outcome(r),
        ),
{
    let ghost given = options@;
    let ghost given_message = message;
    match config.protocol {
        Protocol::Connect => {},
        Protocol::Grpc | Protocol::GrpcWeb => {
            return Err(
                ConnectError::invalid_argument(
                    "call_unary_get requires Protocol::Connect (gRPC/gRPC-Web are POST-only)",
                ),
            );
        },
    }
    let options = config::effective_options(config, options);
    let message = match message {
        Ok(m) => m,
        Err(e) => {
            return Err(e);
        },
    };
    let ghost bytes = message@;
    assert(compression::outcome_of(given_message) == Ok::<Seq<u8>, error::ErrorView>(bytes));
    let packed = pack_message(config, options.compress, message);
    let ghost sent = get_result(config@, service@, method@, options@, packed_outcome(packed));
    assert(is_get_call(
        config@,
        service@,
        method@,
        Ok::<Seq<u8>, error::ErrorView>(bytes),
        given,
        sent,
    ));
    let (payload, compressed) = match packed {
        Ok(p) => p,
        Err(e) => {
            return Err(e);
        },
    };
    let path = build_get_path(config, service, method, payload.as_slice(), compressed);
    let uri = match uri::uri_or_error(Uri::parse(path.as_str()), "invalid GET URI: ") {
        Ok(u) => u,
        Err(e) => {
            return Err(e);
        },
    };
    proof {
        request_headers_fit(config@, given, request::get_fields(config@, options@.timeout));
    }
    let own = request::get_request_headers(config, options.timeout);
    let headers = metadata::merge_headers(&own, headers::copy_headers(&options.headers));
    let body: Vec<u8> = Vec::new();
    assert(body@ =~= Seq::empty());
    Ok(
        OutgoingCall {
            request: HttpRequest { method: HttpMethod::Get, uri, headers, body },
            options,
        },
    )
}

/// A streaming call to be sent: its request without a body, the encoder of its
/// messages, and its options with the defaults of the configuration filled in.
#[derive(Debug)]
pub struct StreamingCall {
    pub request: HttpRequest,
    pub encoder: EnvelopeEncoder,
    pub options: CallOptions,
}

/// A streaming call in mathematical terms.
#[verifier::ext_equal]
pub struct StreamingView {
    pub request: RequestView,
    pub encoder: envelope::EncoderView,
    pub options: config::OptionsView,
}

impl View for StreamingCall {
    type V = StreamingView;

    open spec fn view(&self) -> StreamingView {
        StreamingView {
            request: self.request@,
            encoder: self.encoder@,
            options: self.options@,
        }
    }
}

/// The outcome of opening a streaming call, in mathematical terms.
pub open spec fn streaming_outcome(r: Result<StreamingCall, ConnectError>) -> Result<
    StreamingView,
    error::ErrorView,
> {
    match r {
        Ok(c) => Ok(c@),
        Err(e) => Err(e@),
    }
}

/// A streaming call before its headers are known to be sendable: an error when
/// the URI is none, else the request.
pub open spec fn addressed_call(
    config: config::ConfigView,
    service: Seq<char>,
    method: Seq<char>,
    options: config::OptionsView,
) -> Result<StreamingView, error::ErrorView> {
    let eff = config::effective(config, options);
    match uri::method_uri(config.base_uri, service, method) {
        Err(e) => Err(e),
        Ok(u) => Ok(
            StreamingView {
                request: RequestView {
                    method: HttpMethod::Post,
                    uri: u,
                    headers: request_headers(
                        request::streaming_fields(config, eff.timeout),
                        eff,
                    ),
                    body: Seq::empty(),
                },
                encoder: call_encoder(config, eff.compress),
                options: eff,
            },
        ),
    }
}

/// What opening a streaming call gives: an error when the URI is none, else an
/// error when the encoding of requests cannot be named in a header, else the
/// request.
pub open spec fn streaming_call(
    config: config::ConfigView,
    service: Seq<char>,
    method: Seq<char>,
    options: config::OptionsView,
) -> Result<StreamingView, error::ErrorView> {
    match addressed_call(config, service, method, options) {
        Err(e) => Err(e),
        Ok(call) => if can_declare_encoding(config) {
            Ok(call)
        } else {
            Err(unbuildable())
        },
    }
}

/// Where a streaming call goes, the encoder of its messages, and its options
/// with the defaults filled in.
struct Address {
    uri: Uri,
    encoder: EnvelopeEncoder,
    options: CallOptions,
}

/// Finds out where a streaming call goes.
fn address_call(config: &ClientConfig, service: &str, method: &str, options: CallOptions) -> (r:
    Result<Address, ConnectError>)
    requires
        headers_fit(config@, options@),
    ensures
        match addressed_call(config@, service@, method@, options@) {
            Err(e) => r is Err && r->Err_0@ == e,
            Ok(call) => {
                &&& r is Ok
                &&& r->Ok_0.uri@ == call.request.uri
                &&& r->Ok_0.encoder@ == call.encoder
                &&& r->Ok_0.options@ == config::effective(config@, options@)
            },
        },
{
    let options = config::effective_options(config, options);
    match uri::build_method_uri(&config.base_uri, service, method) {
        Ok(uri) => {
            let encoder = message_encoder(config, options.compress);
            Ok(Address { uri, encoder, options })
        },
        Err(e) => Err(e),
    }
}

/// Makes the headers of a streaming call, unless the encoding of requests cannot
/// be named in one.
fn streaming_headers(config: &ClientConfig, options: &CallOptions) -> (r: Result<
    http::HeaderMap,
    ConnectError,
>)
    requires
        headers::has_room(
            headers::with_fields(
                headers::no_headers(),
                request::streaming_fields(config@, options@.timeout),
            ),
        ),
        headers::has_room(
            request_headers(request::streaming_fields(config@, options@.timeout), options@),
        ),
    ensures
        match r {
            Ok(h) => can_declare_encoding(config@) && headers::header_contents(h)
                == request_headers(request::streaming_fields(config@, options@.timeout), options@),
            Err(e) => !can_declare_encoding(config@) && e@ == unbuildable(),
        },
{
    if !check_encoding(config) {
        return Err(unbuildable_error());
    }
    let own = request::add_streaming_request_headers(
        headers::new_headers(),
        config,
        options.timeout,
    );
    Ok(metadata::merge_headers(&own, headers::copy_headers(&options.headers)))
}

/// Opens a client-streaming call. Its messages are put into envelopes one by
/// one with [`encode_message`].
pub fn call_client_stream(
    config: &ClientConfig,
    service: &str,
    method: &str,
    options: CallOptions,
) -> (r: Result<StreamingCall, ConnectError>)
    requires
        headers_fit(config@, options@),
    ensures
        streaming_outcome(r) == streaming_call(config@, service@, method@, options@),
{
    let ghost given = options@;
    let Address { uri, encoder, options } = match address_call(config, service, method, options) {
        Ok(a) => a,
        Err(e) => {
            return Err(e);
        },
    };
    proof {
        request_headers_fit(
            config@,
            given,
            request::streaming_fields(config@, options@.timeout),
        );
    }
    let headers = match streaming_headers(config, &options) {
        Ok(h) => h,
        Err(e) => {
            return Err(e);
        },
    };
    let body: Vec<u8> = Vec::new();
    assert(body@ =~= Seq::empty());
    Ok(
        StreamingCall {
            request: HttpRequest { method: HttpMethod::Post, uri, headers, body },
            encoder,
            options,
        },
    )
}

/// What sending one message of a stream gives: its own error when it could not
/// be encoded, else what the encoder gives.
pub open spec fn is_sent_message(
    encoder: envelope::EncoderView,
    message: Result<Seq<u8>, error::ErrorView>,
    r: Result<Seq<u8>, error::ErrorView>,
) -> bool {
    match message {
        Err(e) => r == Err::<Seq<u8>, error::ErrorView>(e),
        Ok(m) => encoder.encodes(m, r),
    }
}

/// Puts one message of a stream into its envelope. The message comes encoded,
/// or with the error that encoding it gave.
pub fn encode_message(encoder: &EnvelopeEncoder, message: Result<Vec<u8>, ConnectError>) -> (r:
    Result<Vec<u8>, ConnectError>)
    ensures
        is_sent_message(
            encoder@,
            compression::outcome_of(message),
            compression::outcome_of(r),
        ),
{
    match message {
        Ok(m) => encoder.encode(m.as_slice()),
        Err(e) => Err(e),
    }
}

/// What a server-streaming call sends, once its message is in its envelope or
/// could not be put into one.
pub open spec fn server_stream_result(
    config: config::ConfigView,
    call: StreamingView,
    envelope: Result<Seq<u8>, error::ErrorView>,
) -> Result<CallView, error::ErrorView> {
    match envelope {
        Err(e) => Err(e),
        Ok(body) => if can_declare_encoding(config) {
            Ok(
                CallView {
                    request: RequestView { body, ..call.request },
                    options: call.options,
                },
            )
        } else {
            Err(unbuildable())
        },
    }
}

/// Whether `r` is what a server-streaming call sends: an error when the URI is
/// none, else the message's own error when it could not be encoded, else the
/// encoder's error, else an error when the encoding cannot be named in a header,
/// else the request with the message in its envelope.
pub open spec fn is_server_stream_call(
    config: config::ConfigView,
    service: Seq<char>,
    method: Seq<char>,
    message: Result<Seq<u8>, error::ErrorView>,
    options: config::OptionsView,
    r: Result<CallView, error::ErrorView>,
) -> bool {
    match addressed_call(config, service, method, options) {
        Err(e) => r == Err::<CallView, error::ErrorView>(e),
        Ok(call) => exists|envelope: Result<Seq<u8>, error::ErrorView>|
            #![trigger server_stream_result(config, call, envelope)]
            is_sent_message(call.encoder, message, envelope) && r == server_stream_result(
                config,
                call,
                envelope,
            ),
    }
}

/// Builds what a server-streaming call sends. The message comes encoded, or
/// with the error that encoding it gave.
pub fn call_server_stream(
    config: &ClientConfig,
    service: &str,
    method: &str,
    message: Result<Vec<u8>, ConnectError>,
    options: CallOptions,
) -> (r: Result<OutgoingCall, ConnectError>)
    requires
        headers_fit(config@, options@),
    ensures
        is_server_stream_call(
            config@,
            service@,
            method@,
            compression::outcome_of(message),
            options@,
            call_outcome(r),
        ),
{
    let ghost given = options@;
    let Address { uri, encoder, options } = match address_call(config, service, method, options) {
        Ok(a) => a,
        Err(e) => {
            return Err(e);
        },
    };
    let envelope = encode_message(&encoder, message);
    let ghost call = addressed_call(config@, service@, method@, given)->Ok_0;
    let ghost sent = server_stream_result(config@, call, compression::outcome_of(envelope));
    let body = match envelope {
        Ok(b) => b,
        Err(e) => {
            assert(sent == Err::<CallView, error::ErrorView>(e@));
            return Err(e);
        },
    };
    proof {
        request_headers_fit(
            config@,
            given,
            request::streaming_fields(config@, options@.timeout),
        );
    }
    let headers = match streaming_headers(config, &options) {
        Ok(h) => h,
        Err(e) => {
            assert(sent == Err::<CallView, error::ErrorView>(e@));
            return Err(e);
        },
    };
    let r = OutgoingCall {
        request: HttpRequest { method: HttpMethod::Post, uri, headers, body },
        options,
    };
    assert(sent == Ok::<CallView, error::ErrorView>(r@));
    Ok(r)
}

/// A Connect unary request says that its body is compressed exactly when it is:
/// the protocol's own headers name an encoding if and only if one was applied.
pub proof fn content_encoding_means_compressed(
    config: config::ConfigView,
    options: config::OptionsView,
    uri: Seq<char>,
    body: Seq<u8>,
    compressed: bool,
)
    requires
        config.protocol == Protocol::Connect,
        compressed ==> config.request_compression is Some,
        !options.headers.dom().contains("content-encoding"@),
    ensures
        unary_request(config, options, uri, body, compressed).request.headers.dom().contains(
            "content-encoding"@,
        ) <==> compressed,
{
    let fields = request::unary_fields(
        config,
        options.timeout,
        applied_encoding(config, compressed),
    );
    metadata::with_fields_names(headers::no_headers(), fields);
    reveal_strlit("content-type");
    reveal_strlit("content-encoding");
    reveal_strlit("accept-encoding");
    reveal_strlit("connect-protocol-version");
    reveal_strlit("connect-timeout-ms");
    let name = "content-encoding"@;
    assert("content-type"@.len() != name.len() && "accept-encoding"@.len() != name.len()
        && "connect-protocol-version"@.len() != name.len() && "connect-timeout-ms"@.len()
        != name.len());
    if compressed {
        assert(fields[2].0 == name);
    } else {
        assert forall|i: int| 0 <= i < fields.len() implies (#[trigger] fields[i]).0 != name by {}
    }
}

/// Without compression of requests, the server reads out of a Connect unary
/// request, and out of the envelope of any other, exactly the message.
pub proof fn uncompressed_message_is_sent_as_is(
    config: config::ConfigView,
    compress: Option<bool>,
    message: Seq<u8>,
    body: Seq<u8>,
    compressed: bool,
)
    requires
        config.request_compression is None,
        unary_body(config, compress, message, Ok((body, compressed))),
    ensures
        !compressed,
        config.protocol == Protocol::Connect ==> body == message,
        config.protocol != Protocol::Connect ==> body == envelope::framed(0, message),
{
}

/// The caller's headers win over the protocol's: a name that the call or its
/// configuration sets has exactly those values, and every other header of the
/// protocol is there as it is.
pub proof fn caller_headers_win(
    fields: Seq<(Seq<char>, (Seq<u8>, bool))>,
    options: config::OptionsView,
    name: Seq<char>,
)
    ensures
        ({
            let own = headers::with_fields(headers::no_headers(), fields);
            let h = request_headers(fields, options);
            &&& options.headers.dom().contains(name) ==> h.dom().contains(name) && h[name]
                == options.headers[name]
            &&& !options.headers.dom().contains(name) ==> (h.dom().contains(name)
                <==> own.dom().contains(name))
            &&& !options.headers.dom().contains(name) && own.dom().contains(name) ==> h[name]
                == own[name]
        }),
{
}

/// A header whose name occurs once among some fields has just that value.
proof fn single_field(fields: Seq<(Seq<char>, (Seq<u8>, bool))>, k: int)
    requires
        0 <= k < fields.len(),
        forall|i: int| 0 <= i < fields.len() && i != k ==> (#[trigger] fields[i]).0 != fields[k].0,
    ensures
        ({
            let h = headers::with_fields(headers::no_headers(), fields);
            h.dom().contains(fields[k].0) && h[fields[k].0] == seq![fields[k].1]
        }),
    decreases fields.len(),
{
    let name = fields[k].0;
    let shorter = fields.drop_last();
    if k == fields.len() - 1 {
        metadata::with_fields_names(headers::no_headers(), shorter);
        let before = headers::with_fields(headers::no_headers(), shorter);
        assert(!before.dom().contains(name)) by {
            if before.dom().contains(name) {
                let i = choose|i: int| 0 <= i < shorter.len() && (#[trigger] shorter[i]).0 == name;
                assert(fields[i].0 == name);
            }
        }
        assert(headers::values_of(before, name).push(fields[k].1) =~= seq![fields[k].1]);
    } else {
        assert forall|i: int| 0 <= i < shorter.len() && i != k implies (#[trigger] shorter[i]).0
            != shorter[k].0 by {
            assert(fields[i].0 != name);
        }
        single_field(shorter, k);
        assert(fields[fields.len() - 1].0 != name);
    }
}

/// Whether some headers carry a timeout in the form of a protocol: the header
/// with just that value if there is a timeout, else no such header.
pub open spec fn carry_timeout(
    h: headers::Headers,
    protocol: Protocol,
    t: Option<std::time::Duration>,
) -> bool {
    let name = protocol.timeout_name();
    match request::timeout_value(t, protocol) {
        Some(v) => h.dom().contains(name) && h[name] == seq![request::text_field(name, v).1],
        None => !h.dom().contains(name),
    }
}

/// The protocol's own headers carry the timeout.
proof fn fields_carry_timeout(
    fields: Seq<(Seq<char>, (Seq<u8>, bool))>,
    k: int,
    protocol: Protocol,
    t: Option<std::time::Duration>,
    options: config::OptionsView,
)
    requires
        !options.headers.dom().contains(protocol.timeout_name()),
        t is Some ==> 0 <= k < fields.len() && fields[k] == request::text_field(
            protocol.timeout_name(),
            request::timeout_value(t, protocol)->Some_0,
        ),
        forall|i: int|
            0 <= i < fields.len() && (t is Some ==> i != k) ==> (#[trigger] fields[i]).0
                != protocol.timeout_name(),
    ensures
        carry_timeout(request_headers(fields, options), protocol, t),
{
    metadata::with_fields_names(headers::no_headers(), fields);
    if t is Some {
        single_field(fields, k);
    }
}

/// Every kind of request carries the timeout of the call or, when it has none,
/// that of the configuration, in the protocol's form; and none when neither has
/// one. This holds unless the caller sets the header by hand.
pub proof fn timeout_is_sent(
    config: config::ConfigView,
    options: config::OptionsView,
    applied: Option<Seq<char>>,
)
    requires
        !config::effective(config, options).headers.dom().contains(config.protocol.timeout_name()),
    ensures
        ({
            let eff = config::effective(config, options);
            let t = if options.timeout is Some {
                options.timeout
            } else {
                config.default_timeout
            };
            &&& eff.timeout == t
            &&& carry_timeout(
                request_headers(request::unary_fields(config, eff.timeout, applied), eff),
                config.protocol,
                t,
            )
            &&& carry_timeout(
                request_headers(request::streaming_fields(config, eff.timeout), eff),
                config.protocol,
                t,
            )
            &&& config.protocol == Protocol::Connect ==> carry_timeout(
                request_headers(request::get_fields(config, eff.timeout), eff),
                config.protocol,
                t,
            )
        }),
{
    let eff = config::effective(config, options);
    let t = eff.timeout;
    reveal_strlit("content-type");
    reveal_strlit("content-encoding");
    reveal_strlit("accept-encoding");
    reveal_strlit("connect-protocol-version");
    reveal_strlit("connect-timeout-ms");
    reveal_strlit("connect-content-encoding");
    reveal_strlit("connect-accept-encoding");
    reveal_strlit("grpc-timeout");
    reveal_strlit("grpc-encoding");
    reveal_strlit("grpc-accept-encoding");
    reveal_strlit("te");
    let name = config.protocol.timeout_name();
    assert("content-type"@ != name) by {
        assert("content-type"@[0] != "grpc-timeout"@[0]);
        assert("content-type"@.len() != "connect-timeout-ms"@.len());
    }
    assert("content-encoding"@.len() != name.len() && "accept-encoding"@.len() != name.len()
        && "connect-protocol-version"@.len() != name.len() && "connect-content-encoding"@.len()
        != name.len() && "connect-accept-encoding"@.len() != name.len() && "grpc-encoding"@.len()
        != name.len() && "grpc-accept-encoding"@.len() != name.len() && "te"@.len() != name.len());
    let unary = request::unary_fields(config, t, applied);
    fields_carry_timeout(unary, unary.len() - 1, config.protocol, t, eff);
    let streaming = request::streaming_fields(config, t);
    fields_carry_timeout(streaming, streaming.len() - 1, config.protocol, t, eff);
    if config.protocol == Protocol::Connect {
        fields_carry_timeout(request::get_fields(config, t), 0, config.protocol, t, eff);
    }
}

} // verus!
