//! Unary responses: what every one of them gives, and how those of the Connect
//! protocol, a plain body each, are read.

use vstd::prelude::*;
use crate::compression::CompressionRegistry;
use crate::compression;
use crate::config::{CallOptions, ClientConfig};
use crate::config;
use crate::encoding;
use crate::error::{ConnectError, ErrorCode, ErrorDetail};
use crate::error;
use crate::headers;
use crate::metadata;
use crate::protocol;
use crate::text;

verus! {

/// The response of a unary or client-streaming call.
#[derive(Debug)]
pub struct UnaryResponse<Resp> {
    pub headers: http::HeaderMap,
    pub body: Resp,
    pub trailers: http::HeaderMap,
}

impl<Resp> UnaryResponse<Resp> {
    /// A response made of its parts.
    pub fn new(headers: http::HeaderMap, body: Resp, trailers: http::HeaderMap) -> (r: Self)
        ensures
            r == (UnaryResponse { headers, body, trailers }),
    {
        UnaryResponse { headers, body, trailers }
    }

    /// The response headers.
    #[must_use]
    pub fn headers(&self) -> (r: &http::HeaderMap)
        ensures
            *r == self.headers,
    {
        &self.headers
    }

    /// Takes the body out of the response.
    #[must_use]
    pub fn into_view(self) -> (r: Resp)
        ensures
            r == self.body,
    {
        self.body
    }

    /// The trailing metadata.
    #[must_use]
    pub fn trailers(&self) -> (r: &http::HeaderMap)
        ensures
            *r == self.trailers,
    {
        &self.trailers
    }

    /// Takes the response apart into headers, body and trailers.
    #[must_use]
    pub fn into_parts(self) -> (r: (http::HeaderMap, Resp, http::HeaderMap))
        ensures
            r == (self.headers, self.body, self.trailers),
    {
        (self.headers, self.body, self.trailers)
    }
}

/// A response whose message is still encoded, in mathematical terms.
#[verifier::ext_equal]
pub struct ResponseView {
    pub headers: headers::Headers,
    pub message: Seq<u8>,
    pub trailers: headers::Headers,
}

impl View for UnaryResponse<Vec<u8>> {
    type V = ResponseView;

    open spec fn view(&self) -> ResponseView {
        ResponseView {
            headers: headers::header_contents(self.headers),
            message: self.body@,
            trailers: headers::header_contents(self.trailers),
        }
    }
}

/// Where turning a response's bytes into a message can fail.
#[derive(Debug, Clone, Copy, PartialEq, Eq, Structural)]
pub enum DecodeStage {
    /// Reading a protobuf message.
    Proto,
    /// Reading a JSON message.
    Json,
    /// Writing a JSON message as protobuf.
    Reencode,
}

impl DecodeStage {
    /// The beginning of the error's message.
    pub open spec fn complaint(self) -> Seq<char> {
        match self {
            DecodeStage::Proto => "failed to decode response: "@,
            DecodeStage::Json => "failed to decode JSON response: "@,
            DecodeStage::Reencode => "failed to re-encode for view: "@,
        }
    }
}

/// The error for a response whose bytes are no message.
pub fn decode_response_error(stage: DecodeStage, cause: &str) -> (r: ConnectError)
    ensures
        r@ == error::plain_error(ErrorCode::Internal, stage.complaint() + cause@),
{
    let complaint = match stage {
        DecodeStage::Proto => "failed to decode response: ",
        DecodeStage::Json => "failed to decode JSON response: ",
        DecodeStage::Reencode => "failed to re-encode for view: ",
    };
    ConnectError::internal(text::join2(complaint, cause).as_str())
}

/// The error in the body of a Connect error response.
#[derive(Debug)]
pub struct ConnectErrorResponse {
    pub code: Option<String>,
    pub message: Option<String>,
    pub details: Vec<ErrorDetail>,
}

/// An error body in mathematical terms.
#[verifier::ext_equal]
pub struct ErrorBodyView {
    pub code: Option<Seq<char>>,
    pub message: Option<Seq<char>>,
    pub details: Seq<error::DetailView>,
}

impl View for ConnectErrorResponse {
    type V = ErrorBodyView;

    open spec fn view(&self) -> ErrorBodyView {
        ErrorBodyView {
            code: error::text_of(self.code),
            message: error::text_of(self.message),
            details: error::detail_views(self.details@),
        }
    }
}

/// The code that a text names, or a given one when there is no text or it names
/// none.
pub open spec fn code_or(name: Option<Seq<char>>, otherwise: ErrorCode) -> ErrorCode {
    match name {
        Some(s) => match ErrorCode::named(s) {
            Some(c) => c,
            None => otherwise,
        },
        None => otherwise,
    }
}

/// A text, or the empty one when there is none.
pub open spec fn text_or_empty(s: Option<Seq<char>>) -> Seq<char> {
    match s {
        Some(t) => t,
        None => Seq::empty(),
    }
}

/// The error that a server described: its code where it named one, its message
/// and its details.
pub open spec fn described_error(e: ErrorBodyView, otherwise: ErrorCode) -> error::ErrorView {
    error::plain_error(code_or(e.code, otherwise), text_or_empty(e.message)).with_details(
        e.details,
    )
}

/// Makes the error that a server described.
pub fn build_described_error(e: ConnectErrorResponse, otherwise: ErrorCode) -> (r: ConnectError)
    ensures
        r@ == described_error(e@, otherwise),
{
    proof {
        reveal_strlit("");
        assert(""@ =~= Seq::<char>::empty());
    }
    let code = match &e.code {
        Some(s) => match ErrorCode::parse(s.as_str()) {
            Some(c) => c,
            None => otherwise,
        },
        None => otherwise,
    };
    let message = match &e.message {
        Some(s) => s.as_str(),
        None => "",
    };
    let mut err = ConnectError::new(code, message);
    err.set_details(e.details);
    err
}

/// The error for an HTTP status alone.
pub open spec fn http_error(status: u16) -> error::ErrorView {
    error::plain_error(
        protocol::code_of_status(status),
        "HTTP error "@ + text::decimal(status as nat),
    )
}

/// Makes the error for an HTTP status alone.
pub fn build_http_error(status: u16) -> (r: ConnectError)
    ensures
        r@ == http_error(status),
{
    let m = text::join2("HTTP error ", text::decimal_string(status as u128).as_str());
    ConnectError::new(protocol::http_status_to_error_code(status), m.as_str())
}

/// The error for an HTTP status with a body that describes no error.
pub open spec fn http_error_with_body(status: u16, body: Seq<u8>) -> error::ErrorView {
    error::plain_error(
        protocol::code_of_status(status),
        "HTTP error "@ + text::decimal(status as nat) + ": "@ + encoding::utf8_text(body),
    )
}

/// A Connect unary response of which the head has arrived.
#[derive(Debug)]
pub struct ConnectUnaryResponse {
    pub status: u16,
    pub headers: http::HeaderMap,
    pub trailers: http::HeaderMap,
    pub encoding: Option<String>,
    pub compression: CompressionRegistry,
    pub limit: usize,
}

/// The head of a Connect unary response in mathematical terms.
#[verifier::ext_equal]
pub struct ConnectHeadView {
    pub status: u16,
    pub headers: headers::Headers,
    pub trailers: headers::Headers,
    pub encoding: Option<Seq<char>>,
    pub compression: CompressionRegistry,
    pub limit: usize,
}

impl View for ConnectUnaryResponse {
    type V = ConnectHeadView;

    open spec fn view(&self) -> ConnectHeadView {
        ConnectHeadView {
            status: self.status,
            headers: headers::header_contents(self.headers),
            trailers: headers::header_contents(self.trailers),
            encoding: error::text_of(self.encoding),
            compression: self.compression,
            limit: self.limit,
        }
    }
}

/// What the head of a Connect unary response gives: an error when a successful
/// response has a content type other than the call's, else the head with its
/// trailers told apart from its headers.
pub open spec fn connect_head(
    status: u16,
    h: headers::Headers,
    config: config::ConfigView,
    options: config::OptionsView,
) -> Result<ConnectHeadView, error::ErrorView> {
    let ct = text_or_empty(metadata::header_text(h, "content-type"@));
    if protocol::is_success_status(status) && h.dom().contains("content-type"@) && !text::starts(
        ct,
        config.codec_format.content_type_text(),
    ) {
        let code = if text::starts(ct, "application/proto"@) || text::starts(
            ct,
            "application/json"@,
        ) {
            ErrorCode::Internal
        } else {
            ErrorCode::Unknown
        };
        Err(error::plain_error(code, "unexpected content-type: "@ + ct))
    } else {
        Ok(
            ConnectHeadView {
                status,
                headers: metadata::plain_part(h),
                trailers: metadata::trailer_part(h),
                encoding: metadata::header_text(h, "content-encoding"@),
                compression: config.compression,
                limit: options.message_limit(),
            },
        )
    }
}

/// The outcome of reading a head, in mathematical terms.
pub open spec fn head_outcome(r: Result<ConnectUnaryResponse, ConnectError>) -> Result<
    ConnectHeadView,
    error::ErrorView,
> {
    match r {
        Ok(h) => Ok(h@),
        Err(e) => Err(e@),
    }
}

/// Reads the head of a Connect unary response. `options` are those of the call
/// with the defaults filled in.
pub fn parse_connect_unary_response(
    status: u16,
    headers: &http::HeaderMap,
    config: &ClientConfig,
    options: &CallOptions,
) -> (r: Result<ConnectUnaryResponse, ConnectError>)
    requires
        headers::has_room(metadata::trailer_part(headers::header_contents(*headers))),
    ensures
        head_outcome(r) == connect_head(
            status,
            headers::header_contents(*headers),
            config@,
            options@,
        ),
{
    proof {
        metadata::protocol_names_are_canonical("content-type"@);
        metadata::protocol_names_are_canonical("content-encoding"@);
    }
    let (plain, trailers) = metadata::split_trailers(headers);
    if protocol::is_success(status) {
        if let Some(f) = headers::first_value(headers, "content-type") {
            let ct = match metadata::visible_string(f.value.as_slice()) {
                Some(s) => s,
                None => String::new(),
            };
            assert(ct@ == text_or_empty(
                metadata::header_text(headers::header_contents(*headers), "content-type"@),
            ));
            if !text::starts_with(ct.as_str(), config.codec_format.content_type()) {
                let code = if text::starts_with(ct.as_str(), "application/proto")
                    || text::starts_with(ct.as_str(), "application/json") {
                    ErrorCode::Internal
                } else {
                    ErrorCode::Unknown
                };
                let m = text::join2("unexpected content-type: ", ct.as_str());
                return Err(ConnectError::new(code, m.as_str()));
            }
        }
    }
    Ok(
        ConnectUnaryResponse {
            status,
            headers: plain,
            trailers,
            encoding: metadata::header_string(headers, "content-encoding"),
            compression: config.compression,
            limit: options.message_limit(),
        },
    )
}

/// A Connect error response whose body has arrived and may describe the error.
#[derive(Debug)]
pub struct ConnectErrorBody {
    pub status: u16,
    pub headers: http::HeaderMap,
    pub trailers: http::HeaderMap,
    pub body: Vec<u8>,
}

/// What a Connect unary response comes to.
#[derive(Debug)]
pub enum ConnectUnaryOutcome {
    /// A message, still encoded.
    Message(UnaryResponse<Vec<u8>>),
    /// An error.
    Failed(ConnectError),
    /// An error whose description has yet to be read out of the body.
    ErrorBody(ConnectErrorBody),
}

/// The outcome of a Connect unary response in mathematical terms.
pub enum ConnectOutcomeView {
    Message(ResponseView),
    Failed(error::ErrorView),
    ErrorBody { status: u16, headers: headers::Headers, trailers: headers::Headers, body: Seq<u8> },
}

impl View for ConnectUnaryOutcome {
    type V = ConnectOutcomeView;

    open spec fn view(&self) -> ConnectOutcomeView {
        match self {
            ConnectUnaryOutcome::Message(m) => ConnectOutcomeView::Message(m@),
            ConnectUnaryOutcome::Failed(e) => ConnectOutcomeView::Failed(e@),
            ConnectUnaryOutcome::ErrorBody(b) => ConnectOutcomeView::ErrorBody {
                status: b.status,
                headers: headers::header_contents(b.headers),
                trailers: headers::header_contents(b.trailers),
                body: b.body@,
            },
        }
    }
}

/// The bytes of a body, decompressed when the response says that it is
/// compressed.
pub open spec fn unpacked(
    encoding: Option<Seq<char>>,
    compression: CompressionRegistry,
    body: Seq<u8>,
    limit: usize,
) -> Result<Seq<u8>, error::ErrorView> {
    match encoding {
        Some(enc) => compression.decompressed(enc, body, limit),
        None => Ok(body),
    }
}

/// Decompresses a body when the response says that it is compressed.
pub fn unpack(
    encoding: &Option<String>,
    compression: &CompressionRegistry,
    body: Vec<u8>,
    limit: usize,
) -> (r: Result<Vec<u8>, ConnectError>)
    ensures
        compression::outcome_of(r) == unpacked(
            error::text_of(*encoding),
            *compression,
            body@,
            limit,
        ),
{
    match encoding {
        Some(enc) => compression.decompress_with_limit(enc.as_str(), body, limit),
        None => Ok(body),
    }
}

impl ConnectHeadView {
    /// An error with the response's headers and trailers.
    pub open spec fn decorated(self, e: error::ErrorView) -> error::ErrorView {
        e.with_response_headers(self.headers).with_trailers(self.trailers)
    }

    /// What the response comes to, once its unpacked body is there.
    pub open spec fn concluded(self, unpacked: Result<Seq<u8>, error::ErrorView>) -> ConnectOutcomeView {
        if protocol::is_success_status(self.status) {
            match unpacked {
                Err(e) => ConnectOutcomeView::Failed(error::remapped(e)),
                Ok(m) => if m.len() > self.limit {
                    ConnectOutcomeView::Failed(
                        compression::too_large(m.len(), self.limit as nat),
                    )
                } else {
                    ConnectOutcomeView::Message(
                        ResponseView {
                            headers: self.headers,
                            message: m,
                            trailers: self.trailers,
                        },
                    )
                },
            }
        } else {
            match unpacked {
                Err(_) => ConnectOutcomeView::Failed(self.decorated(http_error(self.status))),
                Ok(b) => ConnectOutcomeView::ErrorBody {
                    status: self.status,
                    headers: self.headers,
                    trailers: self.trailers,
                    body: b,
                },
            }
        }
    }

    /// What the response comes to, once its body has been collected or could
    /// not be.
    pub open spec fn finished(self, body: Result<Seq<u8>, error::ErrorView>) -> ConnectOutcomeView {
        match body {
            Err(e) => if protocol::is_success_status(self.status) {
                ConnectOutcomeView::Failed(e)
            } else {
                ConnectOutcomeView::Failed(self.decorated(e))
            },
            Ok(b) => self.concluded(unpacked(self.encoding, self.compression, b, self.limit)),
        }
    }
}

impl ConnectUnaryResponse {
    /// The most bytes the body may have.
    pub fn body_limit(&self) -> (r: usize)
        ensures
            r == self@.limit,
    {
        self.limit
    }

    /// Makes an error carry the response's headers and trailers.
    fn decorate(self, e: ConnectError) -> (r: ConnectError)
        ensures
            r@ == self@.decorated(e@),
    {
        let mut e = e;
        e.set_response_headers(self.headers);
        e.set_trailers(self.trailers);
        e
    }

    /// What the response comes to, once its unpacked body is there. A body that
    /// cannot be unpacked is an error of its own in a successful response; in
    /// an error response the HTTP status is then all there is.
    pub fn conclude(self, unpacked: Result<Vec<u8>, ConnectError>) -> (r: ConnectUnaryOutcome)
        ensures
            r@ == self@.concluded(compression::outcome_of(unpacked)),
    {
        if protocol::is_success(self.status) {
            match unpacked {
                Err(e) => ConnectUnaryOutcome::Failed(error::map_response_decompression_error(e)),
                Ok(m) => if m.len() > self.limit {
                    ConnectUnaryOutcome::Failed(compression::too_large_error(m.len(), self.limit))
                } else {
                    ConnectUnaryOutcome::Message(
                        UnaryResponse { headers: self.headers, body: m, trailers: self.trailers },
                    )
                },
            }
        } else {
            match unpacked {
                Err(_) => {
                    let e = build_http_error(self.status);
                    ConnectUnaryOutcome::Failed(self.decorate(e))
                },
                Ok(body) => ConnectUnaryOutcome::ErrorBody(
                    ConnectErrorBody {
                        status: self.status,
                        headers: self.headers,
                        trailers: self.trailers,
                        body,
                    },
                ),
            }
        }
    }

    /// What the response comes to, once its body has been collected or could
    /// not be.
    pub fn finish(self, body: Result<Vec<u8>, ConnectError>) -> (r: ConnectUnaryOutcome)
        ensures
            r@ == self@.finished(compression::outcome_of(body)),
    {
        match body {
            Err(e) => if protocol::is_success(self.status) {
                ConnectUnaryOutcome::Failed(e)
            } else {
                ConnectUnaryOutcome::Failed(self.decorate(e))
            },
            Ok(b) => {
                let unpacked = unpack(&self.encoding, &self.compression, b, self.limit);
                self.conclude(unpacked)
            },
        }
    }
}

/// The error that a response with an error body stands for: what the body
/// describes, if it describes an error, else the HTTP status with the body as text.
pub open spec fn body_error(
    status: u16,
    headers: headers::Headers,
    trailers: headers::Headers,
    body: Seq<u8>,
    parsed: Option<ErrorBodyView>,
) -> error::ErrorView {
    (match parsed {
        Some(p) => described_error(p, protocol::code_of_status(status)),
        None => http_error_with_body(status, body),
    }).with_response_headers(headers).with_trailers(trailers)
}

/// The view of an optional description of an error.
pub open spec fn description_view(p: Option<ConnectErrorResponse>) -> Option<ErrorBodyView> {
    match p {
        Some(p) => Some(p@),
        None => None,
    }
}

impl ConnectErrorBody {
    /// The error that the response stands for: what its body describes, if it
    /// describes an error, else the HTTP status with the body as text.
    pub fn into_error(self, parsed: Option<ConnectErrorResponse>) -> (r: ConnectError)
        ensures
            r@ == body_error(
                self.status,
                headers::header_contents(self.headers),
                headers::header_contents(self.trailers),
                self.body@,
                description_view(parsed),
            ),
    {
        let mut e = match parsed {
            Some(p) => build_described_error(
                p,
                protocol::http_status_to_error_code(self.status),
            ),
            None => {
                let mut m = text::join2(
                    "HTTP error ",
                    text::decimal_string(self.status as u128).as_str(),
                );
                m.push_str(": ");
                m.push_str(encoding::utf8_lossy(self.body.as_slice()).as_str());
                ConnectError::new(protocol::http_status_to_error_code(self.status), m.as_str())
            },
        };
        e.set_response_headers(self.headers);
        e.set_trailers(self.trailers);
        e
    }
}

/// A message of a Connect unary call is never over the limit, and is there only
/// for a successful status.
pub proof fn connect_message_is_within_limit(
    head: ConnectHeadView,
    body: Result<Seq<u8>, error::ErrorView>,
)
    ensures
        head.finished(body) matches ConnectOutcomeView::Message(m) ==> m.message.len() <= head.limit
            && protocol::is_success_status(head.status) && m.headers == head.headers && m.trailers
            == head.trailers,
{
}

/// What the server sent compressed in a way the client knows, the client reads
/// as it was before.
pub proof fn connect_response_round_trip(
    head: ConnectHeadView,
    encoding: Seq<char>,
    message: Seq<u8>,
    sent: Seq<u8>,
)
    requires
        protocol::is_success_status(head.status),
        head.encoding == Some(encoding),
        head.compression.is_packed(encoding, message, sent),
        message.len() <= head.limit,
    ensures
        head.finished(Ok(sent)) == ConnectOutcomeView::Message(
            ResponseView { headers: head.headers, message, trailers: head.trailers },
        ),
{
    head.compression.decompression_inverts_compression(encoding, message, sent, head.limit);
}

} // verus!
