//! Streaming responses: taking messages out of the body as it arrives, and
//! deciding how the stream ended.

use vstd::prelude::*;
use crate::body::{BodyEvent, EventView};
use crate::compression::CompressionRegistry;
use crate::compression;
use crate::end_stream::{ClientEndStreamResponse, EndStreamView};
use crate::end_stream;
use crate::envelope::{Envelope, Taken};
use crate::envelope;
use crate::error::{ConnectError, ErrorCode};
use crate::error;
use crate::grpc;
use crate::grpc_unary;
use crate::headers;
use crate::metadata;
use crate::protocol::{CodecFormat, Protocol};
use crate::protocol;
use crate::text;
use crate::unary::ConnectErrorResponse;
use crate::unary;

verus! {

/// The terminal record of a stream: why it ended, and what trailing metadata
/// arrived. It is written once and read by everything that reports the end.
#[derive(Debug)]
pub struct StreamEnd {
    /// `Ok` is a clean end: the RPC succeeded.
    pub outcome: Result<(), ConnectError>,
    pub trailers: Option<http::HeaderMap>,
}

/// A terminal record in mathematical terms.
#[verifier::ext_equal]
pub struct EndView {
    pub outcome: Result<(), error::ErrorView>,
    pub trailers: Option<headers::Headers>,
}

/// The outcome of a stream, in mathematical terms.
pub open spec fn outcome_view(r: Result<(), ConnectError>) -> Result<(), error::ErrorView> {
    match r {
        Ok(()) => Ok(()),
        Err(e) => Err(e@),
    }
}

impl View for StreamEnd {
    type V = EndView;

    open spec fn view(&self) -> EndView {
        EndView { outcome: outcome_view(self.outcome), trailers: grpc::contents_of(self.trailers) }
    }
}

/// The end of a stream that failed before any trailing metadata arrived.
pub open spec fn failed_end(e: error::ErrorView) -> EndView {
    EndView { outcome: Err(e), trailers: None }
}

impl vstd::std_specs::convert::FromSpecImpl<ConnectError> for StreamEnd {
    open spec fn obeys_from_spec() -> bool {
        true
    }

    open spec fn from_spec(e: ConnectError) -> Self {
        StreamEnd { outcome: Err(e), trailers: None }
    }
}

impl From<ConnectError> for StreamEnd {
    fn from(e: ConnectError) -> (r: Self) {
        StreamEnd { outcome: Err(e), trailers: None }
    }
}

impl StreamEnd {
    /// Reports the outcome again.
    pub fn replay(&self) -> (r: Result<(), ConnectError>)
        ensures
            outcome_view(r) == self@.outcome,
    {
        match &self.outcome {
            Ok(()) => Ok(()),
            Err(e) => Err(e.clone()),
        }
    }
}

/// A streaming response that is being read.
#[derive(Debug)]
pub struct ServerStream {
    pub headers: http::HeaderMap,
    pub buf: Vec<u8>,
    pub encoding: Option<String>,
    pub compression: CompressionRegistry,
    pub codec_format: CodecFormat,
    pub protocol: Protocol,
    pub max_message_size: Option<usize>,
    /// The terminal record, once the stream has ended.
    pub end: Option<StreamEnd>,
    /// Whether any body data arrived. It tells a response that has nothing but
    /// its headers from one that was cut off.
    pub saw_body_data: bool,
}

/// A stream in mathematical terms.
#[verifier::ext_equal]
pub struct StreamView {
    pub headers: headers::Headers,
    pub buf: Seq<u8>,
    pub encoding: Option<Seq<char>>,
    pub compression: CompressionRegistry,
    pub codec_format: CodecFormat,
    pub protocol: Protocol,
    pub max_message_size: Option<usize>,
    pub end: Option<EndView>,
    pub saw_body_data: bool,
}

impl View for ServerStream {
    type V = StreamView;

    open spec fn view(&self) -> StreamView {
        StreamView {
            headers: headers::header_contents(self.headers),
            buf: self.buf@,
            encoding: error::text_of(self.encoding),
            compression: self.compression,
            codec_format: self.codec_format,
            protocol: self.protocol,
            max_message_size: self.max_message_size,
            end: match self.end {
                Some(e) => Some(e@),
                None => None,
            },
            saw_body_data: self.saw_body_data,
        }
    }
}

/// What taking the next message gives.
#[derive(Debug)]
pub enum StreamStep {
    /// The stream has ended, with this outcome.
    Ended(Result<(), ConnectError>),
    /// A message, still encoded.
    Message(Vec<u8>),
    /// The contents of the END_STREAM envelope, to be read and handed to
    /// [`ServerStream::on_end_stream`].
    EndStream(Vec<u8>),
    /// More of the body is needed, to be handed to [`ServerStream::on_body`].
    NeedBody,
}

/// A step in mathematical terms.
pub enum StepView {
    Ended(Result<(), error::ErrorView>),
    Message(Seq<u8>),
    EndStream(Seq<u8>),
    NeedBody,
}

impl View for StreamStep {
    type V = StepView;

    open spec fn view(&self) -> StepView {
        match self {
            StreamStep::Ended(r) => StepView::Ended(outcome_view(*r)),
            StreamStep::Message(m) => StepView::Message(m@),
            StreamStep::EndStream(d) => StepView::EndStream(d@),
            StreamStep::NeedBody => StepView::NeedBody,
        }
    }
}

/// The error for a body that ends without an END_STREAM envelope.
pub open spec fn missing_end_stream() -> error::ErrorView {
    error::plain_error(
        ErrorCode::Internal,
        "Connect streaming response ended without END_STREAM envelope"@,
    )
}

/// The error for a deadline that passed while the client was waiting.
pub open spec fn deadline_error() -> error::ErrorView {
    error::plain_error(ErrorCode::DeadlineExceeded, "client-side deadline exceeded"@)
}

/// The error for a deadline that passed while the client was waiting.
pub fn client_deadline_error() -> (r: ConnectError)
    ensures
        r@ == deadline_error(),
{
    ConnectError::deadline_exceeded("client-side deadline exceeded")
}

impl StreamView {
    /// The most bytes a message may have.
    pub open spec fn limit(self) -> nat {
        match self.max_message_size {
            Some(n) => n as nat,
            None => envelope::DEFAULT_MAX_MESSAGE_SIZE as nat,
        }
    }

    /// The most bytes the buffer may hold: one envelope of the largest size,
    /// the header of the next, and room for a trailer frame.
    pub open spec fn buffer_limit(self) -> nat {
        grpc_unary::capped_sum(
            grpc_unary::capped_sum(self.limit(), 2 * envelope::HEADER_SIZE as nat),
            envelope::RESPONSE_BUFFER_TRAILER_SLACK as nat,
        )
    }

    /// The compression of the stream's messages.
    pub open spec fn decompression(self) -> Option<(CompressionRegistry, Seq<char>)> {
        match self.encoding {
            Some(enc) => Some((self.compression, enc)),
            None => None,
        }
    }

    /// The stream with its terminal record.
    pub open spec fn ended(self, end: EndView) -> StreamView {
        StreamView { end: Some(end), ..self }
    }

    /// How a gRPC or gRPC-Web stream ended, given the termination metadata that
    /// arrived, if any. The end is clean only when a status of zero arrived: in
    /// the trailers or, when there was no body data at all, in the headers. No
    /// status anywhere cannot be told from a stream that was cut off: past the
    /// deadline it was the deadline that cut it.
    pub open spec fn classified(
        self,
        trailers: Option<headers::Headers>,
        deadline_passed: bool,
    ) -> EndView {
        let reported = match trailers {
            Some(t) => grpc::error_in(t),
            None => None,
        };
        let outcome = match reported {
            Some(e) => Err(e),
            None => if (trailers is Some && trailers->Some_0.dom().contains("grpc-status"@)) || (
            !self.saw_body_data && self.headers.dom().contains("grpc-status"@)) {
                Ok(())
            } else if deadline_passed {
                Err(error::plain_error(ErrorCode::DeadlineExceeded, "request timeout"@))
            } else if trailers is Some {
                Err(
                    error::plain_error(
                        ErrorCode::Unknown,
                        "protocol error: grpc-status missing from trailers"@,
                    ),
                )
            } else {
                Err(error::plain_error(ErrorCode::Internal, "stream ended without grpc-status"@))
            },
        };
        EndView { outcome, trailers }
    }

    /// The payload of an envelope, decompressed if need be.
    pub open spec fn opened(self, flags: u8, payload: Seq<u8>) -> Result<
        Seq<u8>,
        error::ErrorView,
    > {
        if !envelope::has_compressed_flag(flags) {
            Ok(payload)
        } else {
            match self.encoding {
                None => Err(
                    error::plain_error(
                        ErrorCode::Internal,
                        "received compressed message without content-encoding header"@,
                    ),
                ),
                Some(enc) => match self.compression.decompressed(
                    enc,
                    payload,
                    self.limit() as usize,
                ) {
                    Ok(m) => Ok(m),
                    Err(e) => Err(error::remapped(e)),
                },
            }
        }
    }

    /// Whether the buffer begins with a gRPC-Web trailer frame, whole or not.
    pub open spec fn at_trailer_frame(self) -> bool {
        self.protocol == Protocol::GrpcWeb && self.buf.len() > 0 && envelope::has_trailer_flag(
            self.buf[0],
        )
    }

    /// Whether the buffer begins with a whole gRPC-Web trailer frame.
    pub open spec fn at_whole_trailer_frame(self) -> bool {
        self.at_trailer_frame() && self.buf.len() >= 5 && self.buf.len() >= 5
            + envelope::length_at(self.buf, 0)
    }

    /// The trailers in the trailer frame at the front of the buffer.
    pub open spec fn frame_trailers(self) -> Option<headers::Headers> {
        grpc::frame_trailers(self.buf, self.decompression())
    }

    /// What an envelope at the front of the buffer gives. An END_STREAM envelope
    /// stays where it is, so that nothing behind it is ever taken out.
    pub open spec fn received(self, flags: u8, payload: Seq<u8>, rest: Seq<u8>) -> (
        StreamView,
        StepView,
    ) {
        let next = StreamView { buf: rest, ..self };
        match self.opened(flags, payload) {
            Err(e) => (next.ended(failed_end(e)), StepView::Ended(Err(e))),
            Ok(m) => if envelope::has_end_stream_flag(flags) {
                (self, StepView::EndStream(m))
            } else if self.max_message_size is Some && m.len() > self.max_message_size->Some_0 {
                let e = compression::too_large(m.len(), self.max_message_size->Some_0 as nat);
                (next.ended(failed_end(e)), StepView::Ended(Err(e)))
            } else {
                (next, StepView::Message(m))
            },
        }
    }

    /// What the END_STREAM envelope at the front of the buffer holds, if a whole
    /// one that can be opened is there.
    pub open spec fn end_stream_contents(self) -> Option<Seq<u8>> {
        if self.at_trailer_frame() {
            None
        } else {
            match envelope::take_envelope(self.buf, self.limit()) {
                Taken::Frame { flags, payload, rest } => if envelope::has_end_stream_flag(flags) {
                    self.opened(flags, payload).ok()
                } else {
                    None
                },
                _ => None,
            }
        }
    }

    /// Whether no message can come any more: the stream has ended, or the next
    /// thing on it is the END_STREAM envelope.
    pub open spec fn is_past_messages(self) -> bool {
        self.end is Some || self.end_stream_contents() is Some
    }

    /// What taking the next message gives, and the stream after it. Once the
    /// stream has ended, the outcome is reported again and again. `read` is what
    /// was read out of the trailer frame at the front of the buffer.
    pub open spec fn stepped(
        self,
        read: Option<headers::Headers>,
        deadline_passed: bool,
    ) -> (StreamView, StepView) {
        match self.end {
            Some(end) => (self, StepView::Ended(end.outcome)),
            None => if self.at_whole_trailer_frame() {
                let end = self.classified(read, deadline_passed);
                (self.ended(end), StepView::Ended(end.outcome))
            } else if self.at_trailer_frame() {
                (self, StepView::NeedBody)
            } else {
                match envelope::take_envelope(self.buf, self.limit()) {
                    Taken::Incomplete => (self, StepView::NeedBody),
                    Taken::TooLarge(n) => {
                        let e = compression::too_large(n, self.limit());
                        (self.ended(failed_end(e)), StepView::Ended(Err(e)))
                    },
                    Taken::Frame { flags, payload, rest } => self.received(flags, payload, rest),
                }
            },
        }
    }

    /// The stream after its body brought something. Trailers mean nothing in
    /// the Connect protocol. `read` is what was read out of the trailer frame at
    /// the front of the buffer.
    pub open spec fn fed(
        self,
        event: EventView,
        read: Option<headers::Headers>,
        deadline_passed: bool,
    ) -> StreamView {
        if self.end is Some {
            self
        } else {
            match event {
                EventView::Data(d) => {
                    let next = StreamView {
                        saw_body_data: self.saw_body_data || d.len() > 0,
                        ..self
                    };
                    if self.buf.len() + d.len() > self.buffer_limit() {
                        next.ended(
                            failed_end(
                                error::plain_error(
                                    ErrorCode::ResourceExhausted,
                                    "response buffer exceeds limit "@ + text::decimal(
                                        self.buffer_limit(),
                                    ),
                                ),
                            ),
                        )
                    } else {
                        StreamView { buf: self.buf + d, ..next }
                    }
                },
                EventView::Trailers(t) => if self.protocol == Protocol::Connect {
                    self
                } else {
                    self.ended(self.classified(Some(t), deadline_passed))
                },
                EventView::Error(e) => self.ended(
                    failed_end(
                        error::plain_error(
                            ErrorCode::Internal,
                            "error reading response body: "@ + e,
                        ),
                    ),
                ),
                EventView::Eof => if self.protocol == Protocol::Connect {
                    self.ended(failed_end(missing_end_stream()))
                } else {
                    self.ended(
                        self.classified(
                            if self.at_trailer_frame() {
                                read
                            } else {
                                None
                            },
                            deadline_passed,
                        ),
                    )
                },
            }
        }
    }

    /// The end that an END_STREAM envelope brings.
    pub open spec fn end_stream_end(e: EndStreamView) -> EndView {
        EndView {
            outcome: match e.failure() {
                Some(f) => Err(f),
                None => Ok(()),
            },
            trailers: end_stream::optional_trailers(e.metadata),
        }
    }

    /// The stream after its end became known in some other way than out of the
    /// body. The first end stays.
    pub open spec fn ended_once(self, end: EndView) -> StreamView {
        if self.end is Some {
            self
        } else {
            self.ended(end)
        }
    }

    /// Whether `read` is what can be read out of the trailer frame at the front
    /// of the buffer.
    pub open spec fn can_read(self, read: Option<headers::Headers>) -> bool {
        grpc::can_read(read, self.frame_trailers())
    }

    /// Whether taking the next message can give `r`.
    pub open spec fn can_step(self, deadline_passed: bool, r: (StreamView, StepView)) -> bool {
        exists|read: Option<headers::Headers>| #[trigger]
            self.can_read(read) && r == self.stepped(read, deadline_passed)
    }

    /// Whether the stream can be `next` after its body brought something.
    pub open spec fn can_feed(
        self,
        event: EventView,
        deadline_passed: bool,
        next: StreamView,
    ) -> bool {
        exists|read: Option<headers::Headers>| #[trigger]
            self.can_read(read) && next == self.fed(event, read, deadline_passed)
    }
}

/// How a Connect error response on a stream is to be read: its body is
/// collected and may describe the error.
#[derive(Debug)]
pub struct StreamErrorResponse {
    pub status: u16,
    pub headers: http::HeaderMap,
    pub encoding: Option<String>,
    pub compression: CompressionRegistry,
    pub limit: usize,
}

/// A Connect error response on a stream whose body has arrived and may describe
/// the error.
#[derive(Debug)]
pub struct StreamErrorBody {
    pub status: u16,
    pub headers: http::HeaderMap,
    pub body: Vec<u8>,
}

/// What an error response on a stream comes to.
#[derive(Debug)]
pub enum StreamErrorOutcome {
    /// An error.
    Failed(ConnectError),
    /// An error whose description has yet to be read out of the body.
    Body(StreamErrorBody),
}

/// An error response on a stream in mathematical terms.
#[verifier::ext_equal]
pub struct StreamErrorView {
    pub status: u16,
    pub headers: headers::Headers,
    pub encoding: Option<Seq<char>>,
    pub compression: CompressionRegistry,
    pub limit: usize,
}

impl View for StreamErrorResponse {
    type V = StreamErrorView;

    open spec fn view(&self) -> StreamErrorView {
        StreamErrorView {
            status: self.status,
            headers: headers::header_contents(self.headers),
            encoding: error::text_of(self.encoding),
            compression: self.compression,
            limit: self.limit,
        }
    }
}

/// What an error response on a stream comes to, in mathematical terms.
pub enum StreamErrorOutcomeView {
    Failed(error::ErrorView),
    Body { status: u16, headers: headers::Headers, body: Seq<u8> },
}

impl View for StreamErrorOutcome {
    type V = StreamErrorOutcomeView;

    open spec fn view(&self) -> StreamErrorOutcomeView {
        match self {
            StreamErrorOutcome::Failed(e) => StreamErrorOutcomeView::Failed(e@),
            StreamErrorOutcome::Body(b) => StreamErrorOutcomeView::Body {
                status: b.status,
                headers: headers::header_contents(b.headers),
                body: b.body@,
            },
        }
    }
}

impl StreamErrorView {
    /// What the response comes to, once its unpacked body is there.
    pub open spec fn concluded(self, unpacked: Result<Seq<u8>, error::ErrorView>) -> StreamErrorOutcomeView {
        match unpacked {
            Err(_) => StreamErrorOutcomeView::Failed(
                unary::http_error(self.status).with_response_headers(self.headers),
            ),
            Ok(b) => StreamErrorOutcomeView::Body {
                status: self.status,
                headers: self.headers,
                body: b,
            },
        }
    }

    /// What the response comes to, once its body has been collected or could
    /// not be.
    pub open spec fn finished(self, body: Result<Seq<u8>, error::ErrorView>) -> StreamErrorOutcomeView {
        match body {
            Err(e) => StreamErrorOutcomeView::Failed(e),
            Ok(b) => self.concluded(
                unary::unpacked(self.encoding, self.compression, b, self.limit),
            ),
        }
    }
}

impl StreamErrorResponse {
    /// The most bytes the body may have.
    pub fn body_limit(&self) -> (r: usize)
        ensures
            r == self@.limit,
    {
        self.limit
    }

    /// What the response comes to, once its unpacked body is there. Where it
    /// cannot be unpacked, the HTTP status is all there is.
    pub fn conclude(self, unpacked: Result<Vec<u8>, ConnectError>) -> (r: StreamErrorOutcome)
        ensures
            r@ == self@.concluded(compression::outcome_of(unpacked)),
    {
        match unpacked {
            Err(_) => {
                let mut e = unary::build_http_error(self.status);
                e.set_response_headers(self.headers);
                StreamErrorOutcome::Failed(e)
            },
            Ok(body) => StreamErrorOutcome::Body(
                StreamErrorBody { status: self.status, headers: self.headers, body },
            ),
        }
    }

    /// What the response comes to, once its body has been collected or could
    /// not be.
    pub fn finish(self, body: Result<Vec<u8>, ConnectError>) -> (r: StreamErrorOutcome)
        ensures
            r@ == self@.finished(compression::outcome_of(body)),
    {
        match body {
            Err(e) => StreamErrorOutcome::Failed(e),
            Ok(b) => {
                let unpacked = unary::unpack(&self.encoding, &self.compression, b, self.limit);
                self.conclude(unpacked)
            },
        }
    }
}

/// The error that an error response on a stream stands for: what its body
/// describes, if it describes an error, else the HTTP status.
pub open spec fn body_error(
    status: u16,
    headers: headers::Headers,
    parsed: Option<unary::ErrorBodyView>,
) -> error::ErrorView {
    (match parsed {
        Some(p) => unary::described_error(p, protocol::code_of_status(status)),
        None => unary::http_error(status),
    }).with_response_headers(headers)
}

impl StreamErrorBody {
    /// The error that the response stands for: what its body describes, if it
    /// describes an error, else the HTTP status.
    pub fn into_error(self, parsed: Option<ConnectErrorResponse>) -> (r: ConnectError)
        ensures
            r@ == body_error(
                self.status,
                headers::header_contents(self.headers),
                unary::description_view(parsed),
            ),
    {
        let mut e = match parsed {
            Some(p) => unary::build_described_error(
                p,
                protocol::http_status_to_error_code(self.status),
            ),
            None => unary::build_http_error(self.status),
        };
        e.set_response_headers(self.headers);
        e
    }
}

/// What the head of a streaming response gives.
#[derive(Debug)]
pub enum StreamStart {
    /// A stream to be read.
    Stream(ServerStream),
    /// An error.
    Failed(ConnectError),
    /// An error response whose body may describe the error.
    ErrorResponse(StreamErrorResponse),
}

/// What the head of a streaming response gives, in mathematical terms.
pub enum StartView {
    Stream(StreamView),
    Failed(error::ErrorView),
    ErrorResponse(StreamErrorView),
}

impl View for StreamStart {
    type V = StartView;

    open spec fn view(&self) -> StartView {
        match self {
            StreamStart::Stream(s) => StartView::Stream(s@),
            StreamStart::Failed(e) => StartView::Failed(e@),
            StreamStart::ErrorResponse(e) => StartView::ErrorResponse(e@),
        }
    }
}

/// What the head of a streaming response gives: in gRPC and gRPC-Web the error
/// that its headers report; else, for an HTTP status other than 200, an error
/// response in the Connect protocol and the error for the status in the others;
/// else a stream.
pub open spec fn stream_start(
    status: u16,
    h: headers::Headers,
    protocol: Protocol,
    compression: CompressionRegistry,
    codec_format: CodecFormat,
    max_message_size: Option<usize>,
) -> StartView {
    if protocol != Protocol::Connect && grpc::error_in(h) is Some {
        StartView::Failed(grpc::error_in(h)->Some_0.with_response_headers(h))
    } else if status != 200 {
        if protocol == Protocol::Connect {
            StartView::ErrorResponse(
                StreamErrorView {
                    status,
                    headers: h,
                    encoding: metadata::header_text(h, "content-encoding"@),
                    compression,
                    limit: match max_message_size {
                        Some(n) => n,
                        None => envelope::DEFAULT_MAX_MESSAGE_SIZE,
                    },
                },
            )
        } else {
            StartView::Failed(unary::http_error(status).with_response_headers(h))
        }
    } else {
        StartView::Stream(
            StreamView {
                headers: h,
                buf: Seq::empty(),
                encoding: metadata::header_text(h, protocol.content_encoding_name()),
                compression,
                codec_format,
                protocol,
                max_message_size,
                end: None,
                saw_body_data: false,
            },
        )
    }
}

/// Reads the head of a streaming response.
pub fn make_server_stream(
    status: u16,
    headers: http::HeaderMap,
    protocol: Protocol,
    compression: CompressionRegistry,
    codec_format: CodecFormat,
    max_message_size: Option<usize>,
) -> (r: StreamStart)
    ensures
        r@ == stream_start(
            status,
            headers::header_contents(headers),
            protocol,
            compression,
            codec_format,
            max_message_size,
        ),
{
    proof {
        metadata::protocol_names_are_canonical("content-encoding"@);
        metadata::protocol_names_are_canonical(protocol.content_encoding_name());
    }
    let is_connect = match protocol {
        Protocol::Connect => true,
        Protocol::Grpc | Protocol::GrpcWeb => false,
    };
    if !is_connect {
        if let Some(e) = grpc::parse_grpc_error_from_trailers(&headers) {
            let mut e = e;
            e.set_response_headers(headers);
            return StreamStart::Failed(e);
        }
    }
    if status != 200 {
        if is_connect {
            let encoding = metadata::header_string(&headers, "content-encoding");
            return StreamStart::ErrorResponse(
                StreamErrorResponse {
                    status,
                    headers,
                    encoding,
                    compression,
                    limit: match max_message_size {
                        Some(n) => n,
                        None => envelope::DEFAULT_MAX_MESSAGE_SIZE,
                    },
                },
            );
        }
        let mut e = unary::build_http_error(status);
        e.set_response_headers(headers);
        return StreamStart::Failed(e);
    }
    let encoding = metadata::header_string(&headers, protocol.content_encoding_header());
    let buf: Vec<u8> = Vec::new();
    assert(buf@ =~= Seq::empty());
    StreamStart::Stream(
        ServerStream {
            headers,
            buf,
            encoding,
            compression,
            codec_format,
            protocol,
            max_message_size,
            end: None,
            saw_body_data: false,
        },
    )
}

impl ServerStream {
    /// The response headers.
    #[must_use]
    pub fn headers(&self) -> (r: &http::HeaderMap)
        ensures
            headers::header_contents(*r) == self@.headers,
    {
        &self.headers
    }

    /// The trailing metadata: there once the stream has ended, if any arrived.
    #[must_use]
    pub fn trailers(&self) -> (r: Option<&http::HeaderMap>)
        ensures
            match r {
                Some(t) => self@.end matches Some(end) && end.trailers == Some(
                    headers::header_contents(*t),
                ),
                None => self@.end matches Some(end) ==> end.trailers is None,
            },
    {
        match &self.end {
            Some(end) => match &end.trailers {
                Some(t) => Some(t),
                None => None,
            },
            None => None,
        }
    }

    /// The error that ended the stream, if it ended with one.
    #[must_use]
    pub fn error(&self) -> (r: Option<&ConnectError>)
        ensures
            match r {
                Some(e) => self@.end matches Some(end) && end.outcome == Err::<
                    (),
                    error::ErrorView,
                >(e@),
                None => self@.end matches Some(end) ==> end.outcome is Ok,
            },
    {
        match &self.end {
            Some(end) => match &end.outcome {
                Ok(()) => None,
                Err(e) => Some(e),
            },
            None => None,
        }
    }

    /// The most bytes a message may have.
    pub fn limit(&self) -> (r: usize)
        ensures
            r == self@.limit(),
    {
        match self.max_message_size {
            Some(n) => n,
            None => envelope::DEFAULT_MAX_MESSAGE_SIZE,
        }
    }

    /// The most bytes the buffer may hold.
    pub fn buffer_limit(&self) -> (r: usize)
        ensures
            r == self@.buffer_limit(),
    {
        self.limit().saturating_add(2 * envelope::HEADER_SIZE).saturating_add(
            envelope::RESPONSE_BUFFER_TRAILER_SLACK,
        )
    }

    /// Decides how a gRPC or gRPC-Web stream ended.
    pub fn classify_grpc_end(
        &self,
        trailers: Option<http::HeaderMap>,
        deadline_passed: bool,
    ) -> (r: StreamEnd)
        ensures
            r@ == self@.classified(grpc::contents_of(trailers), deadline_passed),
    {
        proof {
            metadata::protocol_names_are_canonical("grpc-status"@);
        }
        let reported = match &trailers {
            Some(t) => grpc::parse_grpc_error_from_trailers(t),
            None => None,
        };
        let outcome = match reported {
            Some(e) => Err(e),
            None => {
                let in_trailers = match &trailers {
                    Some(t) => headers::first_value(t, "grpc-status").is_some(),
                    None => false,
                };
                if in_trailers || (!self.saw_body_data && headers::first_value(
                    &self.headers,
                    "grpc-status",
                ).is_some()) {
                    Ok(())
                } else if deadline_passed {
                    Err(ConnectError::deadline_exceeded("request timeout"))
                } else if trailers.is_some() {
                    Err(
                        ConnectError::new(
                            ErrorCode::Unknown,
                            "protocol error: grpc-status missing from trailers",
                        ),
                    )
                } else {
                    Err(ConnectError::internal("stream ended without grpc-status"))
                }
            },
        };
        StreamEnd { outcome, trailers }
    }

    /// Opens an envelope, decompressing it if need be.
    fn decompress_envelope(&self, envelope: Envelope) -> (r: Result<Vec<u8>, ConnectError>)
        ensures
            compression::outcome_of(r) == self@.opened(envelope.flags, envelope.data@),
    {
        if !envelope.is_compressed() {
            return Ok(envelope.data);
        }
        match &self.encoding {
            None => Err(
                ConnectError::internal(
                    "received compressed message without content-encoding header",
                ),
            ),
            Some(enc) => match self.compression.decompress_with_limit(
                enc.as_str(),
                envelope.data,
                self.limit(),
            ) {
                Ok(m) => Ok(m),
                Err(e) => Err(error::map_response_decompression_error(e)),
            },
        }
    }

    /// Reads the gRPC-Web trailer frame at the front of the buffer.
    fn parse_trailer_frame(&self) -> (r: Option<http::HeaderMap>)
        ensures
            self@.can_read(grpc::contents_of(r)),
    {
        let decompression = match &self.encoding {
            Some(enc) => Some((&self.compression, enc.as_str())),
            None => None,
        };
        grpc::parse_grpc_web_trailer_frame_with_compression(self.buf.as_slice(), decompression)
    }

    /// Writes the terminal record and reports its outcome.
    fn finish(&mut self, end: StreamEnd) -> (r: StreamStep)
        requires
            old(self)@.end is None,
        ensures
            final(self)@ == old(self)@.ended(end@),
            r@ == StepView::Ended(end@.outcome),
    {
        let outcome = end.replay();
        self.end = Some(end);
        StreamStep::Ended(outcome)
    }

    /// Takes the next message out of what has arrived. Every error is terminal:
    /// once the stream has ended, every call reports the same outcome. An
    /// END_STREAM envelope is handed out until [`ServerStream::on_end_stream`] or
    /// [`ServerStream::on_error`] ends the stream.
    pub fn message(&mut self, deadline_passed: bool) -> (r: StreamStep)
        ensures
            old(self)@.can_step(deadline_passed, (final(self)@, r@)),
    {
        let ghost before = self@;
        assert(before.can_read(before.frame_trailers()));
        if let Some(end) = &self.end {
            return StreamStep::Ended(end.replay());
        }
        let at_trailers = self.protocol == Protocol::GrpcWeb && self.buf.len() > 0 && self.buf[0]
            & 0x80 != 0;
        if at_trailers {
            if self.buf.len() >= 5 {
                let length: usize = envelope::read_length(self.buf.as_slice(), 0) as usize;
                if self.buf.len() - 5 >= length {
                    let parsed = self.parse_trailer_frame();
                    assert(before.can_read(grpc::contents_of(parsed)));
                    let end = self.classify_grpc_end(parsed, deadline_passed);
                    return self.finish(end);
                }
            }
            return StreamStep::NeedBody;
        }
        let limit = self.limit();
        let at_end_stream = self.buf.len() > 0 && self.buf[0] & 0x02 != 0;
        let kept = if at_end_stream {
            Some(vstd::slice::slice_to_vec(self.buf.as_slice()))
        } else {
            None
        };
        match Envelope::decode_with_limit(&mut self.buf, limit) {
            Err(e) => self.finish(StreamEnd::from(e)),
            Ok(None) => StreamStep::NeedBody,
            Ok(Some(envelope)) => {
                match self.decompress_envelope(envelope) {
                    Err(e) => self.finish(StreamEnd::from(e)),
                    Ok(m) => {
                        if let Some(kept) = kept {
                            self.buf = kept;
                            return StreamStep::EndStream(m);
                        }
                        if let Some(max) = self.max_message_size {
                            if m.len() > max {
                                return self.finish(
                                    StreamEnd::from(compression::too_large_error(m.len(), max)),
                                );
                            }
                        }
                        StreamStep::Message(m)
                    },
                }
            },
        }
    }

    /// Takes in what the body brought.
    pub fn on_body(&mut self, event: BodyEvent, deadline_passed: bool)
        ensures
            old(self)@.can_feed(event@, deadline_passed, final(self)@),
    {
        let ghost before = self@;
        assert(before.can_read(before.frame_trailers()));
        if self.end.is_some() {
            return;
        }
        let is_connect = match self.protocol {
            Protocol::Connect => true,
            Protocol::Grpc | Protocol::GrpcWeb => false,
        };
        match event {
            BodyEvent::Data(data) => {
                if data.len() > 0 {
                    self.saw_body_data = true;
                }
                let max = self.buffer_limit();
                if self.buf.len() > max || data.len() > max - self.buf.len() {
                    let m = text::join2(
                        "response buffer exceeds limit ",
                        text::decimal_string(max as u128).as_str(),
                    );
                    let _ = self.finish(
                        StreamEnd::from(ConnectError::resource_exhausted(m.as_str())),
                    );
                    return;
                }
                let mut data = data;
                self.buf.append(&mut data);
            },
            BodyEvent::Trailers(t) => {
                if !is_connect {
                    let end = self.classify_grpc_end(Some(t), deadline_passed);
                    let _ = self.finish(end);
                }
            },
            BodyEvent::Error(e) => {
                let m = text::join2("error reading response body: ", e.as_str());
                let _ = self.finish(StreamEnd::from(ConnectError::internal(m.as_str())));
            },
            BodyEvent::Eof => {
                if is_connect {
                    let _ = self.finish(
                        StreamEnd::from(
                            ConnectError::internal(
                                "Connect streaming response ended without END_STREAM envelope",
                            ),
                        ),
                    );
                    return;
                }
                let parsed = if self.protocol == Protocol::GrpcWeb && self.buf.len() > 0
                    && self.buf[0] & 0x80 != 0 {
                    let parsed = self.parse_trailer_frame();
                    assert(before.can_read(grpc::contents_of(parsed)));
                    parsed
                } else {
                    None
                };
                let end = self.classify_grpc_end(parsed, deadline_passed);
                let _ = self.finish(end);
            },
        }
    }

    /// Ends the stream with what its END_STREAM envelope said.
    pub fn on_end_stream(&mut self, e: ClientEndStreamResponse)
        requires
            e@.fits(),
        ensures
            final(self)@ == old(self)@.ended_once(StreamView::end_stream_end(e@)),
    {
        if self.end.is_some() {
            return;
        }
        let trailers = match &e.metadata {
            Some(m) => Some(end_stream::build_trailers(m)),
            None => None,
        };
        let outcome = match end_stream::build_failure(e.error) {
            Some(f) => Err(f),
            None => Ok(()),
        };
        let _ = self.finish(StreamEnd { outcome, trailers });
    }

    /// Ends the stream with an error that came up while a message was decoded.
    pub fn on_error(&mut self, e: ConnectError)
        ensures
            final(self)@ == old(self)@.ended_once(failed_end(e@)),
    {
        if self.end.is_some() {
            return;
        }
        let _ = self.finish(StreamEnd::from(e));
    }

    /// Ends the stream because its deadline passed while the client was waiting
    /// for the body.
    pub fn on_deadline(&mut self)
        ensures
            final(self)@ == old(self)@.ended_once(failed_end(deadline_error())),
    {
        self.on_error(client_deadline_error());
    }
}

/// A stream of gRPC or gRPC-Web never has headers that report an error: those
/// end the call before there is a stream.
pub proof fn stream_headers_report_no_error(
    status: u16,
    h: headers::Headers,
    protocol: Protocol,
    compression: CompressionRegistry,
    codec_format: CodecFormat,
    max_message_size: Option<usize>,
)
    requires
        protocol != Protocol::Connect,
    ensures
        stream_start(
            status,
            h,
            protocol,
            compression,
            codec_format,
            max_message_size,
        ) matches StartView::Stream(s) ==> s.headers == h && grpc::error_in(h) is None && s.end
            is None && !s.saw_body_data && status == 200,
{
}

/// There is a stream only for the HTTP status 200: any other is answered with an
/// error at once, or with an error response that becomes one.
pub proof fn only_status_200_opens_a_stream(
    status: u16,
    h: headers::Headers,
    protocol: Protocol,
    compression: CompressionRegistry,
    codec_format: CodecFormat,
    max_message_size: Option<usize>,
)
    ensures
        ({
            let start = stream_start(
                status,
                h,
                protocol,
                compression,
                codec_format,
                max_message_size,
            );
            &&& status != 200 ==> !(start is Stream)
            &&& protocol == Protocol::Connect ==> (start is Stream <==> status == 200)
            &&& protocol != Protocol::Connect ==> (start is Stream <==> status == 200
                && grpc::error_in(h) is None)
        }),
{
}

impl StreamView {
    /// The end of a stream is immutable: nothing that happens later changes the
    /// terminal record, and every further call reports the same outcome.
    pub proof fn end_is_sticky(
        self,
        event: EventView,
        read: Option<headers::Headers>,
        deadline_passed: bool,
        other: EndView,
    )
        requires
            self.end is Some,
        ensures
            self.stepped(read, deadline_passed) == (self, StepView::Ended(self.end->Some_0.outcome)),
            self.fed(event, read, deadline_passed) == self,
            self.ended_once(other) == self,
    {
    }

    /// Once the deadline passed while the client was waiting, every further call
    /// says so.
    pub proof fn deadline_is_sticky(self, read: Option<headers::Headers>, deadline_passed: bool)
        requires
            self.end is None,
        ensures
            ({
                let ended = self.ended_once(failed_end(deadline_error()));
                ended.stepped(read, deadline_passed) == (ended, StepView::Ended(
                    Err(deadline_error()),
                ))
            }),
    {
    }

    /// A call that reports an end leaves a terminal record with that outcome:
    /// what `message` returns and what `error` shows never differ.
    pub proof fn reported_end_is_recorded(
        self,
        read: Option<headers::Headers>,
        deadline_passed: bool,
    )
        ensures
            self.stepped(read, deadline_passed).1 matches StepView::Ended(outcome) ==> {
                &&& self.stepped(read, deadline_passed).0.end is Some
                &&& self.stepped(read, deadline_passed).0.end->Some_0.outcome == outcome
            },
            self.stepped(read, deadline_passed).1 !is Ended ==> self.stepped(read, deadline_passed).0.end
                is None,
    {
    }

    /// A gRPC or gRPC-Web stream ends cleanly only when a status of zero
    /// arrived: in its trailers or, when no body data came at all, in its
    /// headers, which never report an error where there is a stream. A stream
    /// that was cut off never ends cleanly, whatever its headers say.
    pub proof fn clean_grpc_end_needs_status(
        self,
        trailers: Option<headers::Headers>,
        deadline_passed: bool,
    )
        requires
            grpc::error_in(self.headers) is None,
        ensures
            self.classified(trailers, deadline_passed).outcome is Ok ==> {
                ||| trailers is Some && grpc::status_of(trailers->Some_0) == Some(Some(0u32))
                ||| !self.saw_body_data && grpc::status_of(self.headers) == Some(Some(0u32))
            },
            self.saw_body_data && self.classified(trailers, deadline_passed).outcome is Ok
                ==> trailers is Some && grpc::status_of(trailers->Some_0) == Some(Some(0u32)),
    {
    }

    /// Each way in which a gRPC stream can end without a status has its own
    /// code: past the deadline `deadline_exceeded`, else `unknown` when
    /// trailers came without it and `internal` when none came.
    pub proof fn missing_status_codes(
        self,
        trailers: Option<headers::Headers>,
        deadline_passed: bool,
    )
        requires
            trailers is Some ==> !trailers->Some_0.dom().contains("grpc-status"@),
            self.saw_body_data || !self.headers.dom().contains("grpc-status"@),
        ensures
            ({
                let end = self.classified(trailers, deadline_passed);
                &&& end.trailers == trailers
                &&& end.outcome is Err
                &&& end.outcome->Err_0.code == if deadline_passed {
                    ErrorCode::DeadlineExceeded
                } else if trailers is Some {
                    ErrorCode::Unknown
                } else {
                    ErrorCode::Internal
                }
            }),
    {
    }

    /// The body alone never ends a Connect stream cleanly: that takes an
    /// END_STREAM envelope without an error.
    pub proof fn clean_connect_end_needs_end_stream(
        self,
        event: EventView,
        read: Option<headers::Headers>,
        deadline_passed: bool,
    )
        requires
            self.protocol == Protocol::Connect,
            self.end is None,
        ensures
            self.fed(event, read, deadline_passed).end matches Some(end) ==> end.outcome is Err,
            self.stepped(read, deadline_passed).0.end matches Some(end) ==> end.outcome is Err,
    {
    }

    /// A message is within the limit, and so is the buffer at all times.
    pub proof fn limits_hold(
        self,
        event: EventView,
        read: Option<headers::Headers>,
        deadline_passed: bool,
    )
        requires
            self.buf.len() <= self.buffer_limit(),
        ensures
            self.stepped(read, deadline_passed).1 matches StepView::Message(m) ==> m.len()
                <= self.limit(),
            self.stepped(read, deadline_passed).0.buf.len() <= self.buffer_limit(),
            self.fed(event, read, deadline_passed).buf.len() <= self.buffer_limit(),
            self.fed(event, read, deadline_passed).buffer_limit() == self.buffer_limit(),
            self.stepped(read, deadline_passed).0.buffer_limit() == self.buffer_limit(),
    {
        if let Taken::Frame { flags, payload, rest } = envelope::take_envelope(
            self.buf,
            self.limit(),
        ) {
            if let Some(enc) = self.encoding {
                self.compression.decompression_respects_the_limit(
                    enc,
                    payload,
                    self.limit() as usize,
                );
            }
        }
    }

    /// Where the pieces of a body begin and end does not matter: what can be
    /// taken out of the buffer stays the same when more bytes are already
    /// there.
    pub proof fn steps_ignore_chunking(
        self,
        more: Seq<u8>,
        read: Option<headers::Headers>,
        deadline_passed: bool,
    )
        requires
            self.end is None,
            !(self.stepped(read, deadline_passed).1 is NeedBody),
        ensures
            ({
                let longer = StreamView { buf: self.buf + more, ..self };
                let (next, step) = self.stepped(read, deadline_passed);
                let (longer_next, longer_step) = longer.stepped(read, deadline_passed);
                &&& longer_step == step
                &&& longer_next == (StreamView { buf: next.buf + more, ..next })
                &&& self.at_whole_trailer_frame() ==> longer.frame_trailers()
                    == self.frame_trailers()
            }),
    {
        let longer = StreamView { buf: self.buf + more, ..self };
        if self.buf.len() > 0 {
            assert(longer.buf[0] == self.buf[0]);
        }
        if self.at_whole_trailer_frame() {
            assert(envelope::length_at(longer.buf, 0) == envelope::length_at(self.buf, 0));
            grpc::frame_trailers_is_stable(self.buf, more, self.decompression());
        } else {
            envelope::take_is_stable(self.buf, more, self.limit());
        }
    }

    /// A message put into an envelope and sent whole is taken out as it was,
    /// and the rest of the buffer stays.
    pub proof fn plain_message_arrives(
        self,
        message: Seq<u8>,
        rest: Seq<u8>,
        read: Option<headers::Headers>,
        deadline_passed: bool,
    )
        requires
            self.end is None,
            self.buf == envelope::framed(0, message) + rest,
            message.len() <= self.limit(),
            message.len() <= u32::MAX,
        ensures
            self.stepped(read, deadline_passed) == (StreamView { buf: rest, ..self }, StepView::Message(
                message,
            )),
    {
        assert(0u8 & 0x80 == 0 && 0u8 & 1 == 0 && 0u8 & 2 == 0) by (bit_vector);
        envelope::take_inverts_framing(0, message, rest, self.limit());
        assert(self.buf[0] == 0);
    }

    /// What the server put into an envelope, compressed or not, is taken out as
    /// it was, when the response names the encoding and the client knows it.
    pub proof fn sent_message_arrives(
        self,
        encoder: envelope::EncoderView,
        message: Seq<u8>,
        sent: Seq<u8>,
        rest: Seq<u8>,
        read: Option<headers::Headers>,
        deadline_passed: bool,
    )
        requires
            self.end is None,
            encoder.encodes(message, Ok(sent)),
            encoder.compression matches Some(c) ==> self.compression == c.0 && self.encoding
                == Some(c.1),
            self.buf == sent + rest,
            message.len() <= self.limit(),
            sent.len() <= envelope::HEADER_SIZE + self.limit(),
        ensures
            self.stepped(read, deadline_passed) == (StreamView { buf: rest, ..self }, StepView::Message(
                message,
            )),
    {
        envelope::receiving_inverts_sending(
            encoder,
            message,
            sent,
            rest,
            self.limit(),
            self.limit() as usize,
        );
    }

    /// An END_STREAM envelope is told apart from a message, and its contents are
    /// handed out as they were sent, again and again while the stream lasts.
    pub proof fn end_stream_arrives(
        self,
        contents: Seq<u8>,
        rest: Seq<u8>,
        read: Option<headers::Headers>,
        deadline_passed: bool,
    )
        requires
            self.end is None,
            self.buf == envelope::framed(2, contents) + rest,
            contents.len() <= self.limit(),
            contents.len() <= u32::MAX,
        ensures
            self.stepped(read, deadline_passed) == (self, StepView::EndStream(contents)),
    {
        assert(2u8 & 0x80 == 0 && 2u8 & 1 == 0 && 2u8 & 2 != 0) by (bit_vector);
        envelope::take_inverts_framing(2, contents, rest, self.limit());
        assert(self.buf[0] == 2);
    }

    /// No message follows an END_STREAM envelope: once a call has handed one out,
    /// every further call hands it out again, whatever the body brings, until the
    /// stream has ended.
    pub proof fn nothing_follows_end_stream(
        self,
        event: EventView,
        read: Option<headers::Headers>,
        deadline_passed: bool,
        other: EndView,
    )
        ensures
            ({
                let (next, step) = self.stepped(read, deadline_passed);
                &&& step is EndStream <==> self.end is None && self.end_stream_contents() is Some
                &&& step matches StepView::EndStream(contents) ==> {
                    &&& next == self
                    &&& self.end_stream_contents() == Some(contents)
                }
            }),
            self.is_past_messages() ==> {
                &&& !(self.stepped(read, deadline_passed).1 is Message)
                &&& self.stepped(read, deadline_passed).0.is_past_messages()
                &&& self.fed(event, read, deadline_passed).is_past_messages()
                &&& self.ended_once(other).end is Some
            },
            self.end_stream_contents() is Some && self.fed(event, read, deadline_passed).end is None
                ==> self.fed(event, read, deadline_passed).end_stream_contents()
                == self.end_stream_contents(),
    {
        if self.end is None && self.end_stream_contents() is Some {
            if let EventView::Data(d) = event {
                envelope::take_is_stable(self.buf, d, self.limit());
                assert((self.buf + d)[0] == self.buf[0]);
            }
        }
    }

    /// Messages sent one after the other arrive one after the other: each call
    /// takes out the next of them, and after the last the rest of the buffer is
    /// left.
    pub proof fn messages_arrive_in_order(
        self,
        messages: Seq<Seq<u8>>,
        rest: Seq<u8>,
        i: int,
        read: Option<headers::Headers>,
        deadline_passed: bool,
    )
        requires
            self.end is None,
            0 <= i < messages.len(),
            messages[i].len() <= self.limit(),
            messages[i].len() <= u32::MAX,
        ensures
            (StreamView { buf: sent_from(messages, i) + rest, ..self }).stepped(
                read,
                deadline_passed,
            ) == (
                StreamView { buf: sent_from(messages, i + 1) + rest, ..self },
                StepView::Message(messages[i]),
            ),
            sent_from(messages, messages.len() as int) == Seq::<u8>::empty(),
    {
        let here = StreamView { buf: sent_from(messages, i) + rest, ..self };
        let next = sent_from(messages, i + 1) + rest;
        assert(here.buf =~= envelope::framed(0, messages[i]) + next);
        here.plain_message_arrives(messages[i], next, read, deadline_passed);
    }

    /// A gRPC response that has nothing but headers with status zero is a clean
    /// end without any message.
    pub proof fn trailers_only_response_ends_cleanly(
        self,
        read: Option<headers::Headers>,
        deadline_passed: bool,
    )
        requires
            self.end is None,
            self.protocol != Protocol::Connect,
            self.buf.len() == 0,
            !self.saw_body_data,
            grpc::status_of(self.headers) == Some(Some(0u32)),
        ensures
            self.stepped(read, deadline_passed) == (self, StepView::NeedBody),
            self.fed(EventView::Eof, read, deadline_passed).end == Some(
                EndView { outcome: Ok(()), trailers: None },
            ),
    {
    }

    /// The error that trailers report is the error of the stream, and the
    /// trailers stay available.
    pub proof fn reported_error_ends_the_stream(
        self,
        trailers: headers::Headers,
        read: Option<headers::Headers>,
        deadline_passed: bool,
    )
        requires
            self.end is None,
            self.protocol != Protocol::Connect,
            grpc::error_in(trailers) is Some,
        ensures
            self.fed(EventView::Trailers(trailers), read, deadline_passed).end == Some(
                EndView {
                    outcome: Err(grpc::error_in(trailers)->Some_0),
                    trailers: Some(trailers),
                },
            ),
    {
    }

    /// An END_STREAM envelope ends a stream cleanly exactly when it carries no
    /// error; an error that names a code has that code, any other is `unknown`.
    pub proof fn end_stream_decides(self, e: EndStreamView)
        requires
            self.end is None,
        ensures
            ({
                let end = self.ended_once(StreamView::end_stream_end(e)).end->Some_0;
                &&& end.outcome is Ok <==> e.error is None
                &&& e.error is Some ==> end.outcome->Err_0.code == unary::code_or(
                    e.error->Some_0.code,
                    ErrorCode::Unknown,
                )
                &&& end.trailers is Some <==> e.metadata is Some
            }),
    {
    }
}

/// The bytes of some messages, each in its envelope, from one of them on.
pub open spec fn sent_from(messages: Seq<Seq<u8>>, i: int) -> Seq<u8>
    decreases messages.len() - i,
{
    if 0 <= i < messages.len() {
        envelope::framed(0, messages[i]) + sent_from(messages, i + 1)
    } else {
        Seq::empty()
    }
}

} // verus!
