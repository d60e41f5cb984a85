//! Client-streaming responses in the Connect protocol: exactly one message in
//! its envelope, followed by the END_STREAM envelope.

use vstd::prelude::*;
use crate::compression::CompressionRegistry;
use crate::compression;
use crate::config::{CallOptions, ClientConfig};
use crate::config;
use crate::end_stream::{ClientEndStreamResponse, EndStreamView};
use crate::end_stream;
use crate::envelope::{Envelope, Taken};
use crate::envelope;
use crate::error::{ConnectError, ErrorCode};
use crate::error;
use crate::grpc_unary;
use crate::headers;
use crate::metadata;
use crate::protocol;
use crate::stream::{StreamErrorResponse, StreamErrorView};
use crate::stream;
use crate::unary::{ResponseView, UnaryResponse};

verus! {

/// What the envelopes of a response hold: the message, and the contents of the
/// END_STREAM envelope.
#[derive(Debug)]
pub struct ClientStreamEnvelopes {
    pub message: Option<Vec<u8>>,
    pub end_stream: Option<Vec<u8>>,
}

/// The envelopes of a response in mathematical terms.
#[verifier::ext_equal]
pub struct EnvelopesView {
    pub message: Option<Seq<u8>>,
    pub end_stream: Option<Seq<u8>>,
}

impl View for ClientStreamEnvelopes {
    type V = EnvelopesView;

    open spec fn view(&self) -> EnvelopesView {
        EnvelopesView {
            message: grpc_unary::bytes_of(self.message),
            end_stream: grpc_unary::bytes_of(self.end_stream),
        }
    }
}

/// The payload of an envelope, decompressed if need be.
pub open spec fn opened(
    flags: u8,
    payload: Seq<u8>,
    compression: CompressionRegistry,
    encoding: Option<Seq<char>>,
    limit: usize,
) -> Result<Seq<u8>, error::ErrorView> {
    if !envelope::has_compressed_flag(flags) {
        Ok(payload)
    } else {
        match encoding {
            None => Err(
                error::plain_error(
                    ErrorCode::Internal,
                    if envelope::has_end_stream_flag(flags) {
                        "received compressed END_STREAM without encoding header"@
                    } else {
                        "received compressed message without encoding header"@
                    },
                ),
            ),
            Some(enc) => match compression.decompressed(enc, payload, limit) {
                Ok(m) => Ok(m),
                Err(e) => Err(error::remapped(e)),
            },
        }
    }
}

/// What the envelopes of a body hold, with the message found so far. Nothing
/// after the END_STREAM envelope is looked at. A second message is refused
/// before it is looked into.
pub open spec fn scanned(
    buf: Seq<u8>,
    message: Option<Seq<u8>>,
    compression: CompressionRegistry,
    encoding: Option<Seq<char>>,
    limit: usize,
) -> Result<EnvelopesView, error::ErrorView>
    decreases buf.len(),
{
    match envelope::take_envelope(buf, limit as nat) {
        Taken::Incomplete => Ok(EnvelopesView { message, end_stream: None }),
        Taken::TooLarge(n) => Err(compression::too_large(n, limit as nat)),
        Taken::Frame { flags, payload, rest } => if envelope::has_end_stream_flag(flags) {
            match opened(flags, payload, compression, encoding, limit) {
                Ok(d) => Ok(EnvelopesView { message, end_stream: Some(d) }),
                Err(e) => Err(e),
            }
        } else if message is Some {
            Err(
                error::plain_error(
                    ErrorCode::Unimplemented,
                    "client streaming response contains multiple data messages"@,
                ),
            )
        } else {
            match opened(flags, payload, compression, encoding, limit) {
                Err(e) => Err(e),
                Ok(m) => if m.len() > limit {
                    Err(compression::too_large(m.len(), limit as nat))
                } else {
                    scanned(rest, Some(m), compression, encoding, limit)
                },
            }
        },
    }
}

/// The outcome of looking through the envelopes, in mathematical terms.
pub open spec fn envelopes_outcome(r: Result<ClientStreamEnvelopes, ConnectError>) -> Result<
    EnvelopesView,
    error::ErrorView,
> {
    match r {
        Ok(e) => Ok(e@),
        Err(e) => Err(e@),
    }
}

/// The view of an optional text.
pub open spec fn encoding_view(e: Option<&str>) -> Option<Seq<char>> {
    match e {
        Some(s) => Some(s@),
        None => None,
    }
}

/// Opens an envelope, decompressing it if need be.
fn open_envelope(
    envelope: Envelope,
    compression: &CompressionRegistry,
    encoding: Option<&str>,
    limit: usize,
) -> (r: Result<Vec<u8>, ConnectError>)
    ensures
        compression::outcome_of(r) == opened(
            envelope.flags,
            envelope.data@,
            *compression,
            encoding_view(encoding),
            limit,
        ),
{
    if !envelope.is_compressed() {
        return Ok(envelope.data);
    }
    match encoding {
        None => Err(
            ConnectError::internal(
                if envelope.is_end_stream() {
                    "received compressed END_STREAM without encoding header"
                } else {
                    "received compressed message without encoding header"
                },
            ),
        ),
        Some(enc) => match compression.decompress_with_limit(enc, envelope.data, limit) {
            Ok(m) => Ok(m),
            Err(e) => Err(error::map_response_decompression_error(e)),
        },
    }
}

/// Looks through the envelopes of a response's body.
pub fn parse_connect_client_stream_envelopes(
    body: Vec<u8>,
    compression: &CompressionRegistry,
    encoding: Option<&str>,
    max_msg_size: usize,
) -> (r: Result<ClientStreamEnvelopes, ConnectError>)
    ensures
        envelopes_outcome(r) == scanned(
            body@,
            None,
            *compression,
            encoding_view(encoding),
            max_msg_size,
        ),
{
    let mut buf = body;
    let mut message: Option<Vec<u8>> = None;
    while buf.len() > 0
        invariant
            scanned(body@, None, *compression, encoding_view(encoding), max_msg_size) == scanned(
                buf@,
                grpc_unary::bytes_of(message),
                *compression,
                encoding_view(encoding),
                max_msg_size,
            ),
        decreases buf.len(),
    {
        let envelope = match Envelope::decode_with_limit(&mut buf, max_msg_size) {
            Ok(Some(e)) => e,
            Ok(None) => {
                return Ok(ClientStreamEnvelopes { message, end_stream: None });
            },
            Err(e) => {
                return Err(e);
            },
        };
        if envelope.is_end_stream() {
            return match open_envelope(envelope, compression, encoding, max_msg_size) {
                Ok(d) => Ok(ClientStreamEnvelopes { message, end_stream: Some(d) }),
                Err(e) => Err(e),
            };
        }
        if message.is_some() {
            return Err(
                ConnectError::unimplemented(
                    "client streaming response contains multiple data messages",
                ),
            );
        }
        match open_envelope(envelope, compression, encoding, max_msg_size) {
            Err(e) => {
                return Err(e);
            },
            Ok(m) => {
                if m.len() > max_msg_size {
                    return Err(compression::too_large_error(m.len(), max_msg_size));
                }
                message = Some(m);
            },
        }
    }
    Ok(ClientStreamEnvelopes { message, end_stream: None })
}

impl EnvelopesView {
    /// What the envelopes come to, once the END_STREAM envelope, if there is
    /// one, has been read: the error it reports; else an error when there is no
    /// message; else an error when there was no END_STREAM envelope, for then
    /// the response was cut off; else the message and the trailers.
    pub open spec fn concluded(
        self,
        e: EndStreamView,
        response_headers: headers::Headers,
    ) -> Result<(Seq<u8>, headers::Headers), error::ErrorView> {
        let trailers = match e.metadata {
            Some(m) => end_stream::end_trailers(m),
            None => headers::no_headers(),
        };
        if self.end_stream is Some && e.failure() is Some {
            Err(
                e.failure()->Some_0.with_response_headers(response_headers).with_trailers(trailers),
            )
        } else {
            match self.message {
                None => Err(
                    error::plain_error(
                        ErrorCode::Unimplemented,
                        "client streaming response contains no data messages"@,
                    ),
                ),
                Some(m) => if self.end_stream is None {
                    Err(stream::missing_end_stream())
                } else {
                    Ok((m, trailers))
                },
            }
        }
    }
}

/// The outcome of a response, in mathematical terms.
pub open spec fn parts_outcome(r: Result<(Vec<u8>, http::HeaderMap), ConnectError>) -> Result<
    (Seq<u8>, headers::Headers),
    error::ErrorView,
> {
    match r {
        Ok((m, t)) => Ok((m@, headers::header_contents(t))),
        Err(e) => Err(e@),
    }
}

impl ClientStreamEnvelopes {
    /// What the envelopes come to. `end_stream` is what the contents of the
    /// END_STREAM envelope say; it counts only if there is such an envelope.
    pub fn conclude(self, end_stream: ClientEndStreamResponse, response_headers: &http::HeaderMap) -> (r:
        Result<(Vec<u8>, http::HeaderMap), ConnectError>)
        requires
            self@.end_stream is Some ==> end_stream@.fits(),
        ensures
            parts_outcome(r) == self@.concluded(
                end_stream@,
                headers::header_contents(*response_headers),
            ),
    {
        let mut trailers = headers::new_headers();
        let ended = self.end_stream.is_some();
        if ended {
            if let Some(m) = &end_stream.metadata {
                trailers = end_stream::build_trailers(m);
            }
            if let Some(f) = end_stream::build_failure(end_stream.error) {
                let mut e = f;
                e.set_response_headers(headers::copy_headers(response_headers));
                e.set_trailers(trailers);
                return Err(e);
            }
        }
        match self.message {
            None => Err(
                ConnectError::unimplemented("client streaming response contains no data messages"),
            ),
            Some(m) => {
                if !ended {
                    return Err(
                        ConnectError::internal(
                            "Connect streaming response ended without END_STREAM envelope",
                        ),
                    );
                }
                Ok((m, trailers))
            },
        }
    }
}

/// A Connect client-streaming response of which the head has arrived.
#[derive(Debug)]
pub struct ClientStreamResponse {
    pub headers: http::HeaderMap,
    pub encoding: Option<String>,
    pub compression: CompressionRegistry,
    pub limit: usize,
}

/// The head of a client-streaming response in mathematical terms.
#[verifier::ext_equal]
pub struct ClientHeadView {
    pub headers: headers::Headers,
    pub encoding: Option<Seq<char>>,
    pub compression: CompressionRegistry,
    pub limit: usize,
}

impl View for ClientStreamResponse {
    type V = ClientHeadView;

    open spec fn view(&self) -> ClientHeadView {
        ClientHeadView {
            headers: headers::header_contents(self.headers),
            encoding: error::text_of(self.encoding),
            compression: self.compression,
            limit: self.limit,
        }
    }
}

/// What the head of a client-streaming response gives.
#[derive(Debug)]
pub enum ClientStreamStart {
    /// A response to be read.
    Response(ClientStreamResponse),
    /// An error response whose body may describe the error.
    ErrorResponse(StreamErrorResponse),
}

/// What the head of a client-streaming response gives, in mathematical terms.
pub enum ClientStartView {
    Response(ClientHeadView),
    ErrorResponse(StreamErrorView),
}

impl View for ClientStreamStart {
    type V = ClientStartView;

    open spec fn view(&self) -> ClientStartView {
        match self {
            ClientStreamStart::Response(r) => ClientStartView::Response(r@),
            ClientStreamStart::ErrorResponse(e) => ClientStartView::ErrorResponse(e@),
        }
    }
}

/// What the head of a client-streaming response gives: an error response for an
/// HTTP status other than success, else a response to be read.
pub open spec fn client_stream_start(
    status: u16,
    h: headers::Headers,
    config: config::ConfigView,
    options: config::OptionsView,
) -> ClientStartView {
    if !protocol::is_success_status(status) {
        ClientStartView::ErrorResponse(
            StreamErrorView {
                status,
                headers: h,
                encoding: metadata::header_text(h, "content-encoding"@),
                compression: config.compression,
                limit: options.message_limit(),
            },
        )
    } else {
        ClientStartView::Response(
            ClientHeadView {
                headers: h,
                encoding: metadata::header_text(h, config.protocol.content_encoding_name()),
                compression: config.compression,
                limit: options.message_limit(),
            },
        )
    }
}

/// Reads the head of a Connect client-streaming response. `options` are those
/// of the call with the defaults filled in.
pub fn parse_connect_client_stream_response(
    status: u16,
    headers: http::HeaderMap,
    config: &ClientConfig,
    options: &CallOptions,
) -> (r: ClientStreamStart)
    ensures
        r@ == client_stream_start(status, headers::header_contents(headers), config@, options@),
{
    proof {
        metadata::protocol_names_are_canonical("content-encoding"@);
        metadata::protocol_names_are_canonical(config@.protocol.content_encoding_name());
    }
    if !protocol::is_success(status) {
        let encoding = metadata::header_string(&headers, "content-encoding");
        return ClientStreamStart::ErrorResponse(
            StreamErrorResponse {
                status,
                headers,
                encoding,
                compression: config.compression,
                limit: options.message_limit(),
            },
        );
    }
    let encoding = metadata::header_string(&headers, config.protocol.content_encoding_header());
    ClientStreamStart::Response(
        ClientStreamResponse {
            headers,
            encoding,
            compression: config.compression,
            limit: options.message_limit(),
        },
    )
}

impl ClientHeadView {
    /// The most bytes the body may have: a message of the largest size and an
    /// END_STREAM envelope.
    pub open spec fn body_limit(self) -> nat {
        grpc_unary::capped_sum(
            grpc_unary::capped_sum(self.limit as nat, 2 * envelope::HEADER_SIZE as nat),
            envelope::RESPONSE_BUFFER_TRAILER_SLACK as nat,
        )
    }

    /// What the body holds, once it has been collected or could not be.
    pub open spec fn finished(self, body: Result<Seq<u8>, error::ErrorView>) -> Result<
        EnvelopesView,
        error::ErrorView,
    > {
        match body {
            Err(e) => Err(e),
            Ok(b) => scanned(b, None, self.compression, self.encoding, self.limit),
        }
    }
}

impl ClientStreamResponse {
    /// The most bytes the body may have.
    pub fn body_limit(&self) -> (r: usize)
        ensures
            r == self@.body_limit(),
    {
        self.limit.saturating_add(2 * envelope::HEADER_SIZE).saturating_add(
            envelope::RESPONSE_BUFFER_TRAILER_SLACK,
        )
    }

    /// What the body holds, once it has been collected or could not be.
    pub fn finish(&self, body: Result<Vec<u8>, ConnectError>) -> (r: Result<
        ClientStreamEnvelopes,
        ConnectError,
    >)
        ensures
            envelopes_outcome(r) == self@.finished(compression::outcome_of(body)),
    {
        match body {
            Err(e) => Err(e),
            Ok(b) => {
                let encoding = match &self.encoding {
                    Some(e) => Some(e.as_str()),
                    None => None,
                };
                parse_connect_client_stream_envelopes(b, &self.compression, encoding, self.limit)
            },
        }
    }

    /// The response, once its envelopes have been looked through and the
    /// END_STREAM envelope has been read.
    pub fn conclude(self, envelopes: ClientStreamEnvelopes, end_stream: ClientEndStreamResponse) -> (r:
        Result<UnaryResponse<Vec<u8>>, ConnectError>)
        requires
            envelopes@.end_stream is Some ==> end_stream@.fits(),
        ensures
            grpc_unary::response_outcome(r) == (match envelopes@.concluded(
                end_stream@,
                self@.headers,
            ) {
                Ok((m, t)) => Ok(
                    ResponseView { headers: self@.headers, message: m, trailers: t },
                ),
                Err(e) => Err(e),
            }),
    {
        match envelopes.conclude(end_stream, &self.headers) {
            Ok((m, trailers)) => Ok(
                UnaryResponse { headers: self.headers, body: m, trailers },
            ),
            Err(e) => Err(e),
        }
    }
}

/// Whether a body of whole envelopes within the limit leads to an END_STREAM
/// envelope.
pub open spec fn reaches_end_stream(buf: Seq<u8>, limit: usize) -> bool
    decreases buf.len(),
{
    match envelope::take_envelope(buf, limit as nat) {
        Taken::Frame { flags, payload, rest } => envelope::has_end_stream_flag(flags)
            || reaches_end_stream(rest, limit),
        _ => false,
    }
}

/// Bytes after the END_STREAM envelope are ignored: they change nothing of what
/// a response holds, nor of the error with which it is refused.
pub proof fn bytes_after_end_stream_are_ignored(
    buf: Seq<u8>,
    more: Seq<u8>,
    message: Option<Seq<u8>>,
    compression: CompressionRegistry,
    encoding: Option<Seq<char>>,
    limit: usize,
)
    requires
        reaches_end_stream(buf, limit),
    ensures
        scanned(buf + more, message, compression, encoding, limit) == scanned(
            buf,
            message,
            compression,
            encoding,
            limit,
        ),
        scanned(buf, message, compression, encoding, limit) matches Ok(e) ==> e.end_stream is Some,
    decreases buf.len(),
{
    envelope::take_is_stable(buf, more, limit as nat);
    if let Taken::Frame { flags, payload, rest } = envelope::take_envelope(buf, limit as nat) {
        if !envelope::has_end_stream_flag(flags) {
            if let Ok(m) = opened(flags, payload, compression, encoding, limit) {
                bytes_after_end_stream_are_ignored(
                    rest,
                    more,
                    Some(m),
                    compression,
                    encoding,
                    limit,
                );
            }
        }
    }
}

/// What a body is refused for stays the same however it goes on.
pub proof fn refused_body_stays_refused(
    buf: Seq<u8>,
    more: Seq<u8>,
    message: Option<Seq<u8>>,
    compression: CompressionRegistry,
    encoding: Option<Seq<char>>,
    limit: usize,
)
    requires
        scanned(buf, message, compression, encoding, limit) is Err,
    ensures
        scanned(buf + more, message, compression, encoding, limit) == scanned(
            buf,
            message,
            compression,
            encoding,
            limit,
        ),
    decreases buf.len(),
{
    envelope::take_is_stable(buf, more, limit as nat);
    if let Taken::Frame { flags, payload, rest } = envelope::take_envelope(buf, limit as nat) {
        if !envelope::has_end_stream_flag(flags) {
            if let Ok(m) = opened(flags, payload, compression, encoding, limit) {
                if message is None && m.len() <= limit {
                    refused_body_stays_refused(
                        rest,
                        more,
                        Some(m),
                        compression,
                        encoding,
                        limit,
                    );
                }
            }
        }
    }
}

/// A response of one envelope, compressed or not, and an END_STREAM envelope
/// holds the message and the contents of the latter, whatever follows.
pub proof fn complete_response_is_read(
    encoder: envelope::EncoderView,
    message: Seq<u8>,
    sent: Seq<u8>,
    contents: Seq<u8>,
    more: Seq<u8>,
    compression: CompressionRegistry,
    encoding: Option<Seq<char>>,
    limit: usize,
)
    requires
        encoder.encodes(message, Ok(sent)),
        encoder.compression matches Some(c) ==> compression == c.0 && encoding == Some(c.1),
        message.len() <= limit,
        sent.len() <= envelope::HEADER_SIZE + limit,
        contents.len() <= limit,
        contents.len() <= u32::MAX,
    ensures
        scanned(
            sent + (envelope::framed(2, contents) + more),
            None,
            compression,
            encoding,
            limit,
        ) == Ok::<EnvelopesView, error::ErrorView>(
            EnvelopesView { message: Some(message), end_stream: Some(contents) },
        ),
{
    let tail = envelope::framed(2, contents) + more;
    assert(2u8 & 1 == 0 && 2u8 & 2 != 0) by (bit_vector);
    envelope::receiving_inverts_sending(encoder, message, sent, tail, limit as nat, limit);
    envelope::take_inverts_framing(2, contents, more, limit as nat);
    reveal_with_fuel(scanned, 2);
}

/// A client-streaming call succeeds only with exactly one message followed by
/// an END_STREAM envelope that reports no error: a response that was cut off
/// before it is never a success.
pub proof fn success_needs_end_stream(
    found: EnvelopesView,
    e: EndStreamView,
    response_headers: headers::Headers,
)
    ensures
        found.concluded(e, response_headers) is Ok <==> found.message is Some && found.end_stream
            is Some && e.error is None,
        found.concluded(e, response_headers) matches Ok((m, t)) ==> found.message == Some(m),
{
}

/// A second message is refused whatever it holds and however it is packed: its
/// payload is never looked into.
pub proof fn second_message_is_refused(
    flags: u8,
    payload: Seq<u8>,
    rest: Seq<u8>,
    first: Seq<u8>,
    compression: CompressionRegistry,
    encoding: Option<Seq<char>>,
    limit: usize,
)
    requires
        !envelope::has_end_stream_flag(flags),
        payload.len() <= limit,
        payload.len() <= u32::MAX,
    ensures
        scanned(
            envelope::framed(flags, payload) + rest,
            Some(first),
            compression,
            encoding,
            limit,
        ) == Err::<EnvelopesView, error::ErrorView>(
            error::plain_error(
                ErrorCode::Unimplemented,
                "client streaming response contains multiple data messages"@,
            ),
        ),
{
    envelope::take_inverts_framing(flags, payload, rest, limit as nat);
}

/// The message of a client-streaming call is within the limit.
pub proof fn message_is_within_limit(
    buf: Seq<u8>,
    message: Option<Seq<u8>>,
    compression: CompressionRegistry,
    encoding: Option<Seq<char>>,
    limit: usize,
)
    requires
        message matches Some(m) ==> m.len() <= limit,
    ensures
        scanned(buf, message, compression, encoding, limit) matches Ok(e) ==> (e.message matches Some(
            m,
        ) ==> m.len() <= limit),
    decreases buf.len(),
{
    if let Taken::Frame { flags, payload, rest } = envelope::take_envelope(buf, limit as nat) {
        if !envelope::has_end_stream_flag(flags) {
            if let Ok(m) = opened(flags, payload, compression, encoding, limit) {
                if m.len() <= limit {
                    message_is_within_limit(rest, Some(m), compression, encoding, limit);
                }
            }
        }
    }
}

} // verus!
