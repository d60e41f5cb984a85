//! Unary responses in gRPC and gRPC-Web: one envelope, and the status in
//! trailers, in a trailer frame or, when there is nothing else, in the headers.

use vstd::prelude::*;
use crate::body::{BodyEvent, EventView};
use crate::body;
use crate::compression::CompressionRegistry;
use crate::compression;
use crate::config::{CallOptions, ClientConfig};
use crate::config;
use crate::envelope::{Envelope, Taken};
use crate::envelope;
use crate::error::{ConnectError, ErrorCode};
use crate::error;
use crate::grpc;
use crate::headers;
use crate::metadata;
use crate::protocol::Protocol;
use crate::protocol;
use crate::text;
use crate::unary::{ResponseView, UnaryResponse};
use crate::unary;

verus! {

/// A gRPC or gRPC-Web unary response that is being read.
#[derive(Debug)]
pub struct GrpcUnaryResponse {
    pub headers: http::HeaderMap,
    pub encoding: Option<String>,
    pub compression: CompressionRegistry,
    pub protocol: Protocol,
    pub max_message_size: Option<usize>,
    pub buf: Vec<u8>,
    pub trailers: http::HeaderMap,
    pub has_body_data: bool,
}

/// A gRPC unary response in mathematical terms.
#[verifier::ext_equal]
pub struct GrpcView {
    pub headers: headers::Headers,
    pub encoding: Option<Seq<char>>,
    pub compression: CompressionRegistry,
    pub protocol: Protocol,
    pub max_message_size: Option<usize>,
    pub buf: Seq<u8>,
    pub trailers: headers::Headers,
    pub has_body_data: bool,
}

impl View for GrpcUnaryResponse {
    type V = GrpcView;

    open spec fn view(&self) -> GrpcView {
        GrpcView {
            headers: headers::header_contents(self.headers),
            encoding: error::text_of(self.encoding),
            compression: self.compression,
            protocol: self.protocol,
            max_message_size: self.max_message_size,
            buf: self.buf@,
            trailers: headers::header_contents(self.trailers),
            has_body_data: self.has_body_data,
        }
    }
}

/// What the head of a gRPC unary response gives: an error for an HTTP status
/// other than success, for a content type other than gRPC's, and for an
/// encoding that the client does not know; else a response to be read.
pub open spec fn grpc_head(
    status: u16,
    h: headers::Headers,
    config: config::ConfigView,
    options: config::OptionsView,
) -> Result<GrpcView, error::ErrorView> {
    let ct = unary::text_or_empty(metadata::header_text(h, "content-type"@));
    let encoding = metadata::header_text(h, "grpc-encoding"@);
    if !protocol::is_success_status(status) {
        Err(unary::http_error(status).with_response_headers(h))
    } else if h.dom().contains("content-type"@) && !text::starts(ct, "application/grpc"@) {
        Err(
            error::plain_error(
                ErrorCode::Unknown,
                "unexpected content-type: "@ + ct,
            ).with_response_headers(h),
        )
    } else if encoding is Some && encoding != Some("identity"@) && !config.compression.knows(
        encoding->Some_0,
    ) {
        Err(
            error::plain_error(
                ErrorCode::Internal,
                "unsupported response compression: "@ + encoding->Some_0,
            ).with_response_headers(h),
        )
    } else {
        Ok(
            GrpcView {
                headers: h,
                encoding,
                compression: config.compression,
                protocol: config.protocol,
                max_message_size: options.max_message_size,
                buf: Seq::empty(),
                trailers: headers::no_headers(),
                has_body_data: false,
            },
        )
    }
}

/// The outcome of reading a head, in mathematical terms.
pub open spec fn head_outcome(r: Result<GrpcUnaryResponse, ConnectError>) -> Result<
    GrpcView,
    error::ErrorView,
> {
    match r {
        Ok(g) => Ok(g@),
        Err(e) => Err(e@),
    }
}

/// Reads the head of a gRPC or gRPC-Web unary response. `options` are those of
/// the call with the defaults filled in.
pub fn parse_grpc_unary_response(
    status: u16,
    headers: http::HeaderMap,
    config: &ClientConfig,
    options: &CallOptions,
) -> (r: Result<GrpcUnaryResponse, ConnectError>)
    ensures
        head_outcome(r) == grpc_head(
            status,
            headers::header_contents(headers),
            config@,
            options@,
        ),
{
    proof {
        metadata::protocol_names_are_canonical("content-type"@);
        metadata::protocol_names_are_canonical("grpc-encoding"@);
    }
    if !protocol::is_success(status) {
        let mut e = unary::build_http_error(status);
        e.set_response_headers(headers);
        return Err(e);
    }
    if let Some(f) = headers::first_value(&headers, "content-type") {
        let ct = match metadata::visible_string(f.value.as_slice()) {
            Some(s) => s,
            None => String::new(),
        };
        assert(ct@ == unary::text_or_empty(
            metadata::header_text(headers::header_contents(headers), "content-type"@),
        ));
        if !text::starts_with(ct.as_str(), "application/grpc") {
            let m = text::join2("unexpected content-type: ", ct.as_str());
            let mut e = ConnectError::new(ErrorCode::Unknown, m.as_str());
            e.set_response_headers(headers);
            return Err(e);
        }
    }
    let encoding = metadata::header_string(&headers, "grpc-encoding");
    if let Some(enc) = &encoding {
        if !text::text_equal(enc.as_str(), "identity") && !config.compression.supports(
            enc.as_str(),
        ) {
            let m = text::join2("unsupported response compression: ", enc.as_str());
            let mut e = ConnectError::internal(m.as_str());
            e.set_response_headers(headers);
            return Err(e);
        }
    }
    let buf: Vec<u8> = Vec::new();
    assert(buf@ =~= Seq::empty());
    Ok(
        GrpcUnaryResponse {
            headers,
            encoding,
            compression: config.compression,
            protocol: config.protocol,
            max_message_size: options.max_message_size,
            buf,
            trailers: headers::new_headers(),
            has_body_data: false,
        },
    )
}

/// The sum of two sizes, cut to what a size can be.
pub open spec fn capped_sum(a: nat, b: nat) -> nat {
    if a + b <= usize::MAX {
        a + b
    } else {
        usize::MAX as nat
    }
}

/// What reading on gives: the response after it, and whether the body is
/// complete or could not be read.
pub enum Progress {
    More(GrpcView),
    Complete(GrpcView),
    Failed(GrpcView, error::ErrorView),
}

impl GrpcView {
    /// The most bytes a message may have.
    pub open spec fn limit(self) -> nat {
        match self.max_message_size {
            Some(n) => n as nat,
            None => envelope::DEFAULT_MAX_MESSAGE_SIZE as nat,
        }
    }

    /// The most bytes the body may have: one envelope of the largest size and
    /// room for a trailer frame.
    pub open spec fn buffer_limit(self) -> nat {
        capped_sum(
            capped_sum(self.limit(), envelope::HEADER_SIZE as nat),
            envelope::RESPONSE_BUFFER_TRAILER_SLACK as nat,
        )
    }

    /// The buffer after some more bytes, as many of them as it may hold.
    pub open spec fn filled(self, data: Seq<u8>) -> Seq<u8> {
        if self.buf.len() >= self.buffer_limit() {
            self.buf
        } else if self.buf.len() + data.len() <= self.buffer_limit() {
            self.buf + data
        } else {
            self.buf + data.take(self.buffer_limit() - self.buf.len())
        }
    }

    /// What reading on gives. In gRPC-Web a complete trailer frame ends the
    /// body, and what follows it is dropped; otherwise more bytes than the
    /// buffer may hold are an error.
    pub open spec fn read(self, event: EventView) -> Progress {
        match event {
            EventView::Data(data) => {
                let next = GrpcView {
                    buf: self.filled(data),
                    has_body_data: self.has_body_data || data.len() > 0,
                    ..self
                };
                let end = envelope::trailer_frame_end(next.buf, 0);
                if self.protocol == Protocol::GrpcWeb && end is Some {
                    Progress::Complete(
                        GrpcView { buf: next.buf.take(end->Some_0 as int), ..next },
                    )
                } else if next.buf.len() < self.buf.len() + data.len() {
                    Progress::Failed(next, body::body_too_large(self.buffer_limit()))
                } else {
                    Progress::More(next)
                }
            },
            EventView::Trailers(t) => Progress::More(GrpcView { trailers: t, ..self }),
            EventView::Error(e) => Progress::Failed(self, body::body_unreadable(e)),
            EventView::Eof => Progress::Complete(self),
        }
    }
}

impl GrpcUnaryResponse {
    /// The most bytes a message may have.
    pub fn limit(&self) -> (r: usize)
        ensures
            r == self@.limit(),
    {
        match self.max_message_size {
            Some(n) => n,
            None => envelope::DEFAULT_MAX_MESSAGE_SIZE,
        }
    }

    /// The most bytes the body may have.
    pub fn buffer_limit(&self) -> (r: usize)
        ensures
            r == self@.buffer_limit(),
    {
        self.limit().saturating_add(envelope::HEADER_SIZE).saturating_add(
            envelope::RESPONSE_BUFFER_TRAILER_SLACK,
        )
    }

    /// Takes the next event of the body. Tells whether the body is complete.
    pub fn on_body(&mut self, event: BodyEvent) -> (r: Result<bool, ConnectError>)
        ensures
            match old(self)@.read(event@) {
                Progress::More(next) => r == Ok::<bool, ConnectError>(false) && final(self)@
                    == next,
                Progress::Complete(next) => r == Ok::<bool, ConnectError>(true) && final(self)@
                    == next,
                Progress::Failed(next, e) => r is Err && r->Err_0@ == e && final(self)@ == next,
            },
    {
        match event {
            BodyEvent::Data(data) => {
                if data.len() > 0 {
                    self.has_body_data = true;
                }
                let max = self.buffer_limit();
                let remaining: usize = if self.buf.len() < max {
                    max - self.buf.len()
                } else {
                    0
                };
                let append_len: usize = if data.len() < remaining {
                    data.len()
                } else {
                    remaining
                };
                let mut part = vstd::slice::slice_to_vec(
                    vstd::slice::slice_subrange(data.as_slice(), 0, append_len),
                );
                self.buf.append(&mut part);
                assert(self.buf@ =~= old(self)@.filled(data@));
                if self.protocol == Protocol::GrpcWeb {
                    if let Some(end) = envelope::grpc_web_trailer_frame_end(self.buf.as_slice()) {
                        self.buf.truncate(end);
                        return Ok(true);
                    }
                }
                if append_len < data.len() {
                    return Err(body::body_too_large_error(max));
                }
                Ok(false)
            },
            BodyEvent::Trailers(t) => {
                self.trailers = t;
                Ok(false)
            },
            BodyEvent::Error(e) => Err(body::body_unreadable_error(e.as_str())),
            BodyEvent::Eof => Ok(true),
        }
    }
}

/// What the envelopes of a body come to.
pub enum Scan {
    /// The one message, if there is one, and the bytes from the trailer frame
    /// on, if there is one.
    Found { message: Option<Seq<u8>>, frame: Option<Seq<u8>> },
    /// An error.
    Failed(error::ErrorView),
}

impl GrpcView {
    /// The payload of an envelope, decompressed if need be.
    pub open spec fn opened(self, flags: u8, payload: Seq<u8>) -> Result<
        Seq<u8>,
        error::ErrorView,
    > {
        if !envelope::has_compressed_flag(flags) {
            Ok(payload)
        } else {
            match self.encoding {
                None => Err(
                    error::plain_error(
                        ErrorCode::Internal,
                        "received compressed message without grpc-encoding header"@,
                    ),
                ),
                Some(enc) => if enc == "identity"@ {
                    Err(
                        error::plain_error(
                            ErrorCode::Internal,
                            "received compressed message with identity encoding"@,
                        ),
                    )
                } else {
                    match self.compression.decompressed(enc, payload, self.limit() as usize) {
                        Ok(m) => Ok(m),
                        Err(e) => Err(error::remapped(e)),
                    }
                },
            }
        }
    }

    /// The code for an envelope over the limit: `resource_exhausted` for a limit
    /// that the call or its configuration sets, `internal` for the default one.
    pub open spec fn oversize_code(self) -> ErrorCode {
        match self.max_message_size {
            Some(_) => ErrorCode::ResourceExhausted,
            None => ErrorCode::Internal,
        }
    }

    /// What the rest of a body comes to, with the message found so far. A
    /// second message is refused before it is looked into.
    pub open spec fn scanned(self, buf: Seq<u8>, message: Option<Seq<u8>>) -> Scan
        decreases buf.len(),
    {
        if buf.len() == 0 {
            Scan::Found { message, frame: None }
        } else if envelope::has_trailer_flag(buf[0]) {
            Scan::Found { message, frame: Some(buf) }
        } else {
            match envelope::take_envelope(buf, self.limit()) {
                Taken::Incomplete => Scan::Found { message, frame: None },
                Taken::TooLarge(n) => Scan::Failed(
                    error::plain_error(
                        self.oversize_code(),
                        "envelope decode failed: "@ + compression::too_large(
                            n,
                            self.limit(),
                        ).display(),
                    ),
                ),
                Taken::Frame { flags, payload, rest } => if message is Some {
                    Scan::Failed(
                        error::plain_error(
                            ErrorCode::Unimplemented,
                            "received multiple response messages where exactly one was expected"@,
                        ).with_response_headers(self.headers),
                    )
                } else {
                    match self.opened(flags, payload) {
                        Err(e) => Scan::Failed(e),
                        Ok(m) => self.scanned(rest, Some(m)),
                    }
                },
            }
        }
    }

    /// The trailers that decide how the call ended: those that arrived or, in a
    /// response without any body data, the headers.
    pub open spec fn deciding(self, trailers: headers::Headers) -> headers::Headers {
        if trailers == headers::no_headers() && !self.has_body_data {
            self.headers
        } else {
            trailers
        }
    }

    /// What the response comes to, given its message and its trailers.
    pub open spec fn settled(
        self,
        message: Option<Seq<u8>>,
        trailers: headers::Headers,
        deadline_passed: bool,
    ) -> Result<ResponseView, error::ErrorView> {
        let deciding = self.deciding(trailers);
        match grpc::error_in(deciding) {
            Some(e) => Err(e.with_response_headers(self.headers)),
            None => if !deciding.dom().contains("grpc-status"@) {
                Err(
                    (if deadline_passed {
                        error::plain_error(ErrorCode::DeadlineExceeded, "request timeout"@)
                    } else {
                        error::plain_error(
                            ErrorCode::Internal,
                            "gRPC response missing grpc-status trailer"@,
                        )
                    }).with_response_headers(self.headers),
                )
            } else {
                match message {
                    None => Err(
                        error::plain_error(
                            ErrorCode::Unimplemented,
                            "gRPC response contained no message data"@,
                        ).with_response_headers(self.headers),
                    ),
                    Some(m) => if self.max_message_size is Some && m.len()
                        > self.max_message_size->Some_0 {
                        Err(
                            compression::too_large(
                                m.len(),
                                self.max_message_size->Some_0 as nat,
                            ),
                        )
                    } else {
                        Ok(ResponseView { headers: self.headers, message: m, trailers })
                    },
                }
            },
        }
    }

    /// The trailers in the trailer frame of the body, if it has one that can be
    /// read.
    pub open spec fn frame_trailers(self, frame: Option<Seq<u8>>) -> Option<headers::Headers> {
        match frame {
            Some(b) => grpc::frame_trailers(
                b,
                match self.encoding {
                    Some(enc) => Some((self.compression, enc)),
                    None => None,
                },
            ),
            None => None,
        }
    }

    /// What the response comes to, once its body is complete. `read` is what
    /// was read out of its trailer frame; where nothing was, the HTTP trailers
    /// count.
    pub open spec fn finished(
        self,
        read: Option<headers::Headers>,
        deadline_passed: bool,
    ) -> Result<ResponseView, error::ErrorView> {
        match self.scanned(self.buf, None) {
            Scan::Failed(e) => Err(e),
            Scan::Found { message, frame } => self.settled(
                message,
                if frame is Some && read is Some {
                    read->Some_0
                } else {
                    self.trailers
                },
                deadline_passed,
            ),
        }
    }

    /// The trailers in the trailer frame of the body, if it has one.
    pub open spec fn own_frame_trailers(self) -> Option<headers::Headers> {
        match self.scanned(self.buf, None) {
            Scan::Found { message, frame } => self.frame_trailers(frame),
            Scan::Failed(_) => None,
        }
    }

    /// Whether `read` is what can be read out of the trailer frame of the body.
    pub open spec fn can_read(self, read: Option<headers::Headers>) -> bool {
        grpc::can_read(read, self.own_frame_trailers())
    }

    /// Whether the response can come to `r`.
    pub open spec fn can_finish(
        self,
        deadline_passed: bool,
        r: Result<ResponseView, error::ErrorView>,
    ) -> bool {
        exists|read: Option<headers::Headers>| #[trigger]
            self.can_read(read) && r == self.finished(read, deadline_passed)
    }
}

/// The bytes of some pieces, one after the other.
pub open spec fn joined(pieces: Seq<Seq<u8>>) -> Seq<u8>
    decreases pieces.len(),
{
    if pieces.len() == 0 {
        Seq::empty()
    } else {
        joined(pieces.drop_last()) + pieces.last()
    }
}

/// Some pieces of a body as events.
pub open spec fn data_events(pieces: Seq<Seq<u8>>) -> Seq<EventView> {
    pieces.map_values(|p: Seq<u8>| EventView::Data(p))
}

/// The outcome of a response, in mathematical terms.
pub open spec fn response_outcome(r: Result<UnaryResponse<Vec<u8>>, ConnectError>) -> Result<
    ResponseView,
    error::ErrorView,
> {
    match r {
        Ok(m) => Ok(m@),
        Err(e) => Err(e@),
    }
}

/// What scanning a body gave: the message, and the bytes from the trailer frame
/// on.
struct Found {
    message: Option<Vec<u8>>,
    frame: Option<Vec<u8>>,
}

/// The view of optional bytes.
pub open spec fn bytes_of(b: Option<Vec<u8>>) -> Option<Seq<u8>> {
    match b {
        Some(v) => Some(v@),
        None => None,
    }
}

impl GrpcUnaryResponse {
    /// Opens an envelope, decompressing it if need be.
    fn open_envelope(&self, envelope: Envelope) -> (r: Result<Vec<u8>, ConnectError>)
        ensures
            compression::outcome_of(r) == self@.opened(envelope.flags, envelope.data@),
    {
        if !envelope.is_compressed() {
            return Ok(envelope.data);
        }
        match &self.encoding {
            None => Err(
                ConnectError::internal("received compressed message without grpc-encoding header"),
            ),
            Some(enc) => {
                if text::text_equal(enc.as_str(), "identity") {
                    return Err(
                        ConnectError::internal(
                            "received compressed message with identity encoding",
                        ),
                    );
                }
                match self.compression.decompress_with_limit(
                    enc.as_str(),
                    envelope.data,
                    self.limit(),
                ) {
                    Ok(m) => Ok(m),
                    Err(e) => Err(error::map_response_decompression_error(e)),
                }
            },
        }
    }

    /// Looks through the envelopes of the body.
    fn scan(&self) -> (r: Result<Found, ConnectError>)
        ensures
            match self@.scanned(self@.buf, None) {
                Scan::Found { message, frame } => {
                    &&& r is Ok
                    &&& bytes_of(r->Ok_0.message) == message
                    &&& bytes_of(r->Ok_0.frame) == frame
                },
                Scan::Failed(e) => r is Err && r->Err_0@ == e,
            },
    {
        let limit = self.limit();
        let mut buf = vstd::slice::slice_to_vec(self.buf.as_slice());
        let mut message: Option<Vec<u8>> = None;
        while buf.len() > 0
            invariant
                limit == self@.limit(),
                self@.scanned(self@.buf, None) == self@.scanned(buf@, bytes_of(message)),
            decreases buf.len(),
        {
            if buf[0] & 0x80 != 0 {
                return Ok(Found { message, frame: Some(buf) });
            }
            let ghost before = buf@;
            let envelope = match Envelope::decode_with_limit(&mut buf, limit) {
                Ok(Some(e)) => e,
                Ok(None) => {
                    return Ok(Found { message, frame: None });
                },
                Err(e) => {
                    let m = text::join2("envelope decode failed: ", e.to_string().as_str());
                    let code = match self.max_message_size {
                        Some(_) => ErrorCode::ResourceExhausted,
                        None => ErrorCode::Internal,
                    };
                    return Err(ConnectError::new(code, m.as_str()));
                },
            };
            if message.is_some() {
                let mut e = ConnectError::unimplemented(
                    "received multiple response messages where exactly one was expected",
                );
                e.set_response_headers(headers::copy_headers(&self.headers));
                return Err(e);
            }
            match self.open_envelope(envelope) {
                Ok(m) => {
                    message = Some(m);
                },
                Err(e) => {
                    return Err(e);
                },
            }
        }
        Ok(Found { message, frame: None })
    }

    /// What the response comes to, given its message and its trailers.
    pub fn settle(
        self,
        message: Option<Vec<u8>>,
        trailers: http::HeaderMap,
        deadline_passed: bool,
    ) -> (r: Result<UnaryResponse<Vec<u8>>, ConnectError>)
        ensures
            response_outcome(r) == self@.settled(
                bytes_of(message),
                headers::header_contents(trailers),
                deadline_passed,
            ),
    {
        proof {
            metadata::protocol_names_are_canonical("grpc-status"@);
        }
        let from_headers = headers::is_empty(&trailers) && !self.has_body_data;
        let deciding = if from_headers {
            &self.headers
        } else {
            &trailers
        };
        if let Some(e) = grpc::parse_grpc_error_from_trailers(deciding) {
            let mut e = e;
            e.set_response_headers(self.headers);
            return Err(e);
        }
        if headers::first_value(deciding, "grpc-status").is_none() {
            let mut e = if deadline_passed {
                ConnectError::deadline_exceeded("request timeout")
            } else {
                ConnectError::internal("gRPC response missing grpc-status trailer")
            };
            e.set_response_headers(self.headers);
            return Err(e);
        }
        let m = match message {
            Some(m) => m,
            None => {
                let mut e = ConnectError::unimplemented("gRPC response contained no message data");
                e.set_response_headers(self.headers);
                return Err(e);
            },
        };
        if let Some(max) = self.max_message_size {
            if m.len() > max {
                return Err(compression::too_large_error(m.len(), max));
            }
        }
        Ok(UnaryResponse { headers: self.headers, body: m, trailers })
    }

    /// What the response comes to, once its body is complete.
    pub fn finish(self, deadline_passed: bool) -> (r: Result<UnaryResponse<Vec<u8>>, ConnectError>)
        ensures
            self@.can_finish(deadline_passed, response_outcome(r)),
    {
        assert(self@.can_read(self@.own_frame_trailers()));
        let found = match self.scan() {
            Ok(f) => f,
            Err(e) => {
                return Err(e);
            },
        };
        let Found { message, frame } = found;
        let mut trailers = headers::copy_headers(&self.trailers);
        if let Some(bytes) = frame {
            let decompression = match &self.encoding {
                Some(enc) => Some((&self.compression, enc.as_str())),
                None => None,
            };
            let read = grpc::parse_grpc_web_trailer_frame_with_compression(
                bytes.as_slice(),
                decompression,
            );
            assert(self@.can_read(grpc::contents_of(read)));
            if let Some(t) = read {
                trailers = t;
            }
        }
        self.settle(message, trailers, deadline_passed)
    }
}

impl GrpcView {
    /// A unary call succeeds only when a status of zero arrived: in trailers or,
    /// when no body data came at all, in the headers. A response that was cut
    /// off never succeeds.
    pub proof fn success_needs_status_zero(
        self,
        read: Option<headers::Headers>,
        deadline_passed: bool,
    )
        ensures
            self.finished(read, deadline_passed) is Ok ==> {
                let t = self.finished(read, deadline_passed)->Ok_0.trailers;
                &&& grpc::status_of(self.deciding(t)) == Some(Some(0u32))
                &&& self.has_body_data ==> grpc::status_of(t) == Some(Some(0u32))
            },
    {
    }

    /// What the envelopes of a body hold is within the limit.
    proof fn scanned_within_limit(self, buf: Seq<u8>, message: Option<Seq<u8>>)
        requires
            message matches Some(m) ==> m.len() <= self.limit(),
        ensures
            self.scanned(buf, message) matches Scan::Found { message: Some(m), frame: _ } ==> m.len()
                <= self.limit(),
        decreases buf.len(),
    {
        if let Taken::Frame { flags, payload, rest } = envelope::take_envelope(buf, self.limit()) {
            if let Some(enc) = self.encoding {
                self.compression.decompression_respects_the_limit(
                    enc,
                    payload,
                    self.limit() as usize,
                );
            }
            if let Ok(m) = self.opened(flags, payload) {
                self.scanned_within_limit(rest, Some(m));
            }
        }
    }

    /// A message of a unary call is within the limit: the one that the call or
    /// its configuration sets, else the default one.
    pub proof fn message_is_within_limit(
        self,
        read: Option<headers::Headers>,
        deadline_passed: bool,
    )
        ensures
            self.finished(read, deadline_passed) matches Ok(r) ==> r.message.len() <= self.limit(),
    {
        self.scanned_within_limit(self.buf, None);
    }

    /// The buffer never grows beyond its limit, and reading on leaves the head of
    /// the response as it is.
    pub proof fn reading_is_bounded(self, event: EventView)
        requires
            self.buf.len() <= self.buffer_limit(),
        ensures
            match self.read(event) {
                Progress::More(next) | Progress::Complete(next) | Progress::Failed(next, _) => {
                    &&& next.buf.len() <= next.buffer_limit()
                    &&& next.buffer_limit() == self.buffer_limit()
                    &&& next.headers == self.headers
                    &&& self.has_body_data ==> next.has_body_data
                },
            },
    {
        if let EventView::Data(data) = event {
            envelope::trailer_frame_end_is_stable(self.filled(data), Seq::empty(), 0);
        }
    }

    /// Where the pieces of a body begin and end does not matter: two pieces one
    /// after the other give what both in one give. What comes after the end of
    /// the body, or after a failure, changes nothing.
    pub proof fn reading_ignores_chunking(self, first: Seq<u8>, second: Seq<u8>)
        requires
            first.len() > 0,
            self.buf.len() <= self.buffer_limit(),
        ensures
            match self.read(EventView::Data(first)) {
                Progress::More(next) => next.read(EventView::Data(second)) == self.read(
                    EventView::Data(first + second),
                ),
                ended => self.read(EventView::Data(first + second)) == ended,
            },
    {
        let part = self.filled(first);
        let whole = self.filled(first + second);
        let next = GrpcView { buf: part, has_body_data: true, ..self };
        if part.len() < self.buf.len() + first.len() {
            assert(whole =~= part);
        } else {
            assert(whole =~= next.filled(second));
            let more = whole.skip(part.len() as int);
            assert(whole =~= part + more);
            envelope::trailer_frame_end_is_stable(part, more, 0);
            if let Some(end) = envelope::trailer_frame_end(part, 0) {
                assert(whole.take(end as int) =~= part.take(end as int));
            }
        }
    }

    /// What reading some events gives. Nothing is read once the body is complete
    /// or could not be read.
    pub open spec fn read_all(self, events: Seq<EventView>) -> Progress
        decreases events.len(),
    {
        if events.len() == 0 {
            Progress::More(self)
        } else {
            match self.read_all(events.drop_last()) {
                Progress::More(next) => next.read(events.last()),
                ended => ended,
            }
        }
    }

    /// Events after the end of reading change nothing.
    proof fn ended_reading_stays(self, events: Seq<EventView>, more: Seq<EventView>)
        requires
            !(self.read_all(events) is More),
        ensures
            self.read_all(events + more) == self.read_all(events),
        decreases more.len(),
    {
        if more.len() == 0 {
            assert(events + more =~= events);
        } else {
            assert((events + more).drop_last() =~= events + more.drop_last());
            self.ended_reading_stays(events, more.drop_last());
        }
    }

    /// What reading some pieces of a gRPC-Web body gives: all of them while no
    /// trailer frame is complete, else everything up to the end of the frame.
    proof fn pieces_are_joined(self, pieces: Seq<Seq<u8>>)
        requires
            self.protocol == Protocol::GrpcWeb,
            self.buf.len() == 0,
            joined(pieces).len() <= self.buffer_limit(),
        ensures
            self.read_all(data_events(pieces)) == match envelope::trailer_frame_end(
                joined(pieces),
                0,
            ) {
                Some(end) => Progress::Complete(self.cut_body(joined(pieces), end)),
                None => Progress::More(
                    GrpcView {
                        buf: joined(pieces),
                        has_body_data: self.has_body_data || joined(pieces).len() > 0,
                        ..self
                    },
                ),
            },
        decreases pieces.len(),
    {
        let all = joined(pieces);
        if pieces.len() == 0 {
            assert(data_events(pieces) =~= Seq::empty());
            assert(self.buf =~= all);
        } else {
            let before = joined(pieces.drop_last());
            let last = pieces.last();
            assert(data_events(pieces).drop_last() =~= data_events(pieces.drop_last()));
            self.pieces_are_joined(pieces.drop_last());
            envelope::trailer_frame_end_is_stable(before, last, 0);
            match envelope::trailer_frame_end(before, 0) {
                Some(end) => {
                    assert(all.take(end as int) =~= before.take(end as int));
                },
                None => {},
            }
        }
    }

    /// The response with a body that was cut at the end of its trailer frame.
    pub open spec fn cut_body(self, body: Seq<u8>, end: nat) -> GrpcView {
        GrpcView { buf: body.take(end as int), has_body_data: true, ..self }
    }

    /// A gRPC-Web body ends with its first complete trailer frame: what follows,
    /// in the same piece or as further events, is not read, and the response
    /// comes to the same state as the one whose body ends right there, however
    /// either was cut into pieces.
    pub proof fn trailer_frame_ends_the_body(
        self,
        pieces: Seq<Seq<u8>>,
        more: Seq<EventView>,
        cut_pieces: Seq<Seq<u8>>,
        end: nat,
    )
        requires
            self.protocol == Protocol::GrpcWeb,
            self.buf.len() == 0,
            joined(pieces).len() <= self.buffer_limit(),
            envelope::trailer_frame_end(joined(pieces), 0) == Some(end),
            joined(cut_pieces) == joined(pieces).take(end as int),
        ensures
            self.read_all(data_events(pieces) + more) == Progress::Complete(
                self.cut_body(joined(pieces), end),
            ),
            self.read_all(data_events(cut_pieces).push(EventView::Eof)) == self.read_all(
                data_events(pieces) + more,
            ),
    {
        let all = joined(pieces);
        let cut = joined(cut_pieces);
        envelope::trailer_frame_end_is_stable(all, Seq::empty(), 0);
        envelope::trailer_frame_ends_inside(all, 0);
        self.pieces_are_joined(pieces);
        self.ended_reading_stays(data_events(pieces), more);
        self.pieces_are_joined(cut_pieces);
        assert(cut.take(end as int) =~= cut);
        self.ended_reading_stays(data_events(cut_pieces), seq![EventView::Eof]);
        assert(data_events(cut_pieces) + seq![EventView::Eof] =~= data_events(cut_pieces).push(
            EventView::Eof,
        ));
    }

    /// A response comes to just one outcome, when a header map is sure to hold
    /// the trailers of its trailer frame, if it has one.
    pub proof fn outcome_is_unique(
        self,
        deadline_passed: bool,
        r: Result<ResponseView, error::ErrorView>,
    )
        requires
            self.own_frame_trailers() matches Some(t) ==> headers::has_room(t),
        ensures
            self.can_finish(deadline_passed, r) <==> r == self.finished(
                self.own_frame_trailers(),
                deadline_passed,
            ),
    {
        assert(self.can_read(self.own_frame_trailers()));
    }

    /// Together: a gRPC-Web response that goes on after its trailer frame can come
    /// to an outcome exactly when the one that is cut there can, and whatever was
    /// read out of the frame, both come to the same. There is just one outcome for
    /// both when a header map is sure to hold the frame's trailers.
    pub proof fn cut_response_has_the_same_outcome(
        self,
        pieces: Seq<Seq<u8>>,
        more: Seq<EventView>,
        cut_pieces: Seq<Seq<u8>>,
        end: nat,
        deadline_passed: bool,
        read: Option<headers::Headers>,
        r: Result<ResponseView, error::ErrorView>,
    )
        requires
            self.protocol == Protocol::GrpcWeb,
            self.buf.len() == 0,
            joined(pieces).len() <= self.buffer_limit(),
            envelope::trailer_frame_end(joined(pieces), 0) == Some(end),
            joined(cut_pieces) == joined(pieces).take(end as int),
        ensures
            self.read_all(data_events(pieces) + more) is Complete,
            self.read_all(data_events(cut_pieces).push(EventView::Eof)) is Complete,
            ({
                let next = self.read_all(data_events(pieces) + more)->Complete_0;
                let cut = self.read_all(
                    data_events(cut_pieces).push(EventView::Eof),
                )->Complete_0;
                &&& next.can_finish(deadline_passed, r) <==> cut.can_finish(deadline_passed, r)
                &&& next.can_read(read) <==> cut.can_read(read)
                &&& next.finished(read, deadline_passed) == cut.finished(read, deadline_passed)
                &&& (cut.own_frame_trailers() matches Some(t) ==> headers::has_room(t)) ==> (
                next.can_finish(deadline_passed, r) <==> r == cut.finished(
                    cut.own_frame_trailers(),
                    deadline_passed,
                ))
            }),
    {
        self.trailer_frame_ends_the_body(pieces, more, cut_pieces, end);
        let next = self.cut_body(joined(pieces), end);
        if next.own_frame_trailers() matches Some(t) ==> headers::has_room(t) {
            next.outcome_is_unique(deadline_passed, r);
        }
    }

    /// A second message is refused whatever it holds and however it is packed:
    /// its payload is never looked into.
    pub proof fn second_message_is_refused(
        self,
        flags: u8,
        payload: Seq<u8>,
        rest: Seq<u8>,
        first: Seq<u8>,
    )
        requires
            !envelope::has_trailer_flag(flags),
            payload.len() <= self.limit(),
            payload.len() <= u32::MAX,
        ensures
            self.scanned(envelope::framed(flags, payload) + rest, Some(first)) == Scan::Failed(
                error::plain_error(
                    ErrorCode::Unimplemented,
                    "received multiple response messages where exactly one was expected"@,
                ).with_response_headers(self.headers),
            ),
    {
        let buf = envelope::framed(flags, payload) + rest;
        envelope::take_inverts_framing(flags, payload, rest, self.limit());
        assert(buf[0] == flags);
    }

    /// A response of one envelope and good trailers gives the message.
    pub proof fn plain_response_succeeds(
        self,
        message: Seq<u8>,
        read: Option<headers::Headers>,
        deadline_passed: bool,
    )
        requires
            self.buf == envelope::framed(0, message),
            message.len() <= self.limit(),
            message.len() <= u32::MAX,
            grpc::status_of(self.trailers) == Some(Some(0u32)),
        ensures
            self.finished(read, deadline_passed) == Ok::<ResponseView, error::ErrorView>(
                ResponseView { headers: self.headers, message, trailers: self.trailers },
            ),
    {
        assert(0u8 & 0x80 == 0 && 0u8 & 1 == 0) by (bit_vector);
        envelope::take_inverts_framing(0, message, Seq::empty(), self.limit());
        assert(self.buf + Seq::<u8>::empty() =~= self.buf);
        assert(self.buf[0] == 0);
        reveal_with_fuel(GrpcView::scanned, 2);
        assert(self.trailers != headers::no_headers());
    }

    /// What the server put into an envelope, compressed or not, and followed
    /// with good trailers is the message that the call gives, when the response
    /// names the encoding and the client knows it.
    pub proof fn sent_response_succeeds(
        self,
        encoder: envelope::EncoderView,
        message: Seq<u8>,
        read: Option<headers::Headers>,
        deadline_passed: bool,
    )
        requires
            encoder.encodes(message, Ok(self.buf)),
            encoder.compression matches Some(c) ==> self.compression == c.0 && self.encoding
                == Some(c.1) && c.1 != "identity"@,
            message.len() <= self.limit(),
            self.buf.len() <= envelope::HEADER_SIZE + self.limit(),
            grpc::status_of(self.trailers) == Some(Some(0u32)),
        ensures
            self.finished(read, deadline_passed) == Ok::<ResponseView, error::ErrorView>(
                ResponseView { headers: self.headers, message, trailers: self.trailers },
            ),
    {
        envelope::receiving_inverts_sending(
            encoder,
            message,
            self.buf,
            Seq::empty(),
            self.limit(),
            self.limit() as usize,
        );
        assert(self.buf + Seq::<u8>::empty() =~= self.buf);
        reveal_with_fuel(GrpcView::scanned, 2);
        assert(self.trailers != headers::no_headers());
    }

    /// A gRPC-Web response of one envelope, compressed or not, and a trailer
    /// frame with a good status gives the message and the trailers of the frame.
    pub proof fn web_response_succeeds(
        self,
        encoder: envelope::EncoderView,
        message: Seq<u8>,
        sent: Seq<u8>,
        frame: Seq<u8>,
        deadline_passed: bool,
    )
        requires
            encoder.encodes(message, Ok(sent)),
            encoder.compression matches Some(c) ==> self.compression == c.0 && self.encoding
                == Some(c.1) && c.1 != "identity"@,
            message.len() <= self.limit(),
            sent.len() <= envelope::HEADER_SIZE + self.limit(),
            self.buf == sent + frame,
            frame.len() > 0 && envelope::has_trailer_flag(frame[0]),
            self.frame_trailers(Some(frame)) matches Some(t) && grpc::status_of(t) == Some(
                Some(0u32),
            ),
        ensures
            self.own_frame_trailers() == self.frame_trailers(Some(frame)),
            self.finished(self.own_frame_trailers(), deadline_passed) == Ok::<
                ResponseView,
                error::ErrorView,
            >(
                ResponseView {
                    headers: self.headers,
                    message,
                    trailers: self.frame_trailers(Some(frame))->Some_0,
                },
            ),
    {
        envelope::receiving_inverts_sending(
            encoder,
            message,
            sent,
            frame,
            self.limit(),
            self.limit() as usize,
        );
        reveal_with_fuel(GrpcView::scanned, 2);
        assert(self.frame_trailers(Some(frame))->Some_0 != headers::no_headers());
    }
}

} // verus!
