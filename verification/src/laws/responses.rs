//! Responses with a single message from the head to the outcome, in each
//! protocol.

use vstd::prelude::*;
use crate::body::EventView;
use crate::client_stream::{ClientHeadView, ClientStartView, EnvelopesView};
use crate::client_stream;
use crate::config::{ConfigView, OptionsView};
use crate::end_stream::EndStreamView;
use crate::end_stream;
use crate::envelope::EncoderView;
use crate::envelope;
use crate::error::{ErrorCode, ErrorView};
use crate::grpc;
use crate::grpc_unary::{GrpcView, Progress};
use crate::grpc_unary;
use crate::headers;
use crate::laws::errors;
use crate::laws::streams;
use crate::laws;
use crate::metadata;
use crate::protocol::{CodecFormat, Protocol};
use crate::response::{ClientStreamReaderView, UnaryReaderView};
use crate::response;
use crate::stream::StreamErrorOutcomeView;
use crate::text;
use crate::unary::{ConnectHeadView, ConnectOutcomeView, ResponseView};
use crate::unary;

verus! {

/// Trailers of a Connect unary response travel among its headers under a prefix:
/// `trailer-n` is the trailer `n` and no header, whatever is not under the prefix
/// is a header, and neither is anything else.
pub proof fn connect_trailers_have_a_prefix(h: headers::Headers, n: Seq<char>)
    ensures
        ({
            let prefix = seq!['t', 'r', 'a', 'i', 'l', 'e', 'r', '-'];
            let plain = metadata::plain_part(h);
            let trailers = metadata::trailer_part(h);
            let marked = n.len() >= 8 && n.take(8) == prefix;
            &&& plain.dom().contains(n) <==> h.dom().contains(n) && !marked
            &&& plain.dom().contains(n) ==> plain[n] == h[n]
            &&& trailers.dom().contains(n) <==> h.dom().contains(prefix + n)
                && headers::is_canonical_name(n)
            &&& trailers.dom().contains(n) ==> trailers[n] == h[prefix + n]
        }),
{
    reveal_strlit("trailer-");
    assert("trailer-"@ =~= seq!['t', 'r', 'a', 'i', 'l', 'e', 'r', '-']);
}

/// The content type of a single Connect message.
pub open spec fn message_type(format: CodecFormat) -> Seq<char> {
    if format == CodecFormat::Json {
        "application/json"@
    } else {
        "application/proto"@
    }
}

/// Whether a head says what a client can take: it has no content type, or one that
/// is the client's own with or without parameters.
pub open spec fn has_good_type(h: headers::Headers, format: CodecFormat, tail: Seq<char>) -> bool {
    !h.dom().contains("content-type"@) || laws::says(
        h,
        "content-type"@,
        message_type(format) + tail,
    )
}

/// Content types are plain text.
proof fn types_are_plain(tail: Seq<char>)
    requires
        laws::is_plain(tail),
    ensures
        laws::is_plain("application/json"@ + tail),
        laws::is_plain("application/proto"@ + tail),
        laws::is_plain("application/grpc"@ + tail),
        text::starts("application/json"@ + tail, "application/json"@),
        text::starts("application/proto"@ + tail, "application/proto"@),
        text::starts("application/grpc"@ + tail, "application/grpc"@),
{
    reveal_strlit("application/json");
    reveal_strlit("application/proto");
    reveal_strlit("application/grpc");
    let a = "application/json"@;
    let b = "application/proto"@;
    let c = "application/grpc"@;
    assert((a + tail).take(a.len() as int) =~= a);
    assert((b + tail).take(b.len() as int) =~= b);
    assert((c + tail).take(c.len() as int) =~= c);
    assert forall|i: int| 0 <= i < (a + tail).len() implies ' ' <= #[trigger] (a + tail)[i]
        <= '~' by {
        if i >= a.len() {
            assert((a + tail)[i] == tail[i - a.len()]);
        }
    }
    assert forall|i: int| 0 <= i < (b + tail).len() implies ' ' <= #[trigger] (b + tail)[i]
        <= '~' by {
        if i >= b.len() {
            assert((b + tail)[i] == tail[i - b.len()]);
        }
    }
    assert forall|i: int| 0 <= i < (c + tail).len() implies ' ' <= #[trigger] (c + tail)[i]
        <= '~' by {
        if i >= c.len() {
            assert((c + tail)[i] == tail[i - c.len()]);
        }
    }
}

/// A successful Connect response whose content type is the client's own, or that
/// has none, gives its body as the message, decompressed as `content-encoding`
/// says, with its headers and its trailers.
pub proof fn connect_response_gives_its_message(
    status: u16,
    h: headers::Headers,
    config: ConfigView,
    options: OptionsView,
    tail: Seq<char>,
    encoding: Seq<char>,
    message: Seq<u8>,
    packed: Seq<u8>,
)
    requires
        200 <= status <= 299,
        laws::is_plain(tail),
        has_good_type(h, config.codec_format, tail),
        laws::can_unpack(config.compression, encoding),
        config.compression.is_packed(encoding, message, packed),
        message.len() <= streams::size_limit(options.max_message_size),
    ensures
        unary::connect_head(status, h, config, options) matches Ok(head) && {
            let r = ConnectOutcomeView::Message(
                ResponseView {
                    headers: metadata::plain_part(h),
                    message,
                    trailers: metadata::trailer_part(h),
                },
            );
            &&& head.limit == streams::size_limit(options.max_message_size)
            &&& !h.dom().contains("content-encoding"@) ==> head.finished(Ok(message)) == r
            &&& laws::says(h, "content-encoding"@, encoding) ==> head.finished(Ok(packed)) == r
        },
{
    types_are_plain(tail);
    if h.dom().contains("content-type"@) {
        laws::plain_text_is_read(h, "content-type"@, message_type(config.codec_format) + tail);
    }
    encoding_is_plain(encoding);
    if laws::says(h, "content-encoding"@, encoding) {
        laws::plain_text_is_read(h, "content-encoding"@, encoding);
    }
    config.compression.decompression_inverts_compression(
        encoding,
        message,
        packed,
        streams::size_limit(options.max_message_size),
    );
}

/// The encodings that a client can read have plain names.
proof fn encoding_is_plain(encoding: Seq<char>)
    requires
        encoding == "gzip"@ || encoding == "identity"@,
    ensures
        laws::is_plain(encoding),
{
    reveal_strlit("gzip");
    reveal_strlit("identity");
}

/// A successful Connect response whose content type does not begin with the
/// client's own is refused: as an internal error when it is the other codec's,
/// else as an unknown one.
pub proof fn connect_response_of_another_type_is_refused(
    status: u16,
    h: headers::Headers,
    config: ConfigView,
    options: OptionsView,
    ct: Seq<char>,
)
    requires
        200 <= status <= 299,
        laws::is_plain(ct),
        laws::says(h, "content-type"@, ct),
        !text::starts(ct, message_type(config.codec_format)),
    ensures
        unary::connect_head(status, h, config, options) matches Err(e) && {
            &&& e.code == if text::starts(ct, "application/json"@) || text::starts(
                ct,
                "application/proto"@,
            ) {
                ErrorCode::Internal
            } else {
                ErrorCode::Unknown
            }
            &&& e.message == Some("unexpected content-type: "@ + ct)
        },
{
    laws::plain_text_is_read(h, "content-type"@, ct);
}

/// A Connect response with a status other than success is an error whatever its
/// content type: what its body describes, once decompressed, or the status where
/// the body cannot be had; with the headers and trailers of the response.
pub proof fn connect_error_response_is_an_error(
    status: u16,
    h: headers::Headers,
    config: ConfigView,
    options: OptionsView,
    encoding: Seq<char>,
    body: Seq<u8>,
    packed: Seq<u8>,
    e: ErrorView,
)
    requires
        status < 200 || status > 299,
        laws::can_unpack(config.compression, encoding),
        config.compression.is_packed(encoding, body, packed),
        body.len() <= streams::size_limit(options.max_message_size),
    ensures
        unary::connect_head(status, h, config, options) matches Ok(head) && {
            let seen = ConnectOutcomeView::ErrorBody {
                status,
                headers: metadata::plain_part(h),
                trailers: metadata::trailer_part(h),
                body,
            };
            &&& !h.dom().contains("content-encoding"@) ==> head.finished(Ok(body)) == seen
            &&& laws::says(h, "content-encoding"@, encoding) ==> head.finished(Ok(packed)) == seen
            &&& head.finished(Err(e)) matches ConnectOutcomeView::Failed(x) && x.code == e.code
                && x.message == e.message && x.response_headers == metadata::plain_part(h)
                && x.trailers == metadata::trailer_part(h)
            &&& head.concluded(Err(e)) matches ConnectOutcomeView::Failed(x) && x.code
                == streams::protocol_code(status) && x.response_headers == metadata::plain_part(h)
                && x.trailers == metadata::trailer_part(h)
        },
{
    encoding_is_plain(encoding);
    if laws::says(h, "content-encoding"@, encoding) {
        laws::plain_text_is_read(h, "content-encoding"@, encoding);
    }
    config.compression.decompression_inverts_compression(
        encoding,
        body,
        packed,
        streams::size_limit(options.max_message_size),
    );
}

/// A Connect message over the limit is refused with `resource_exhausted`, and a
/// body that could not be collected or unpacked with an error of its own.
pub proof fn connect_message_can_be_refused(
    head: ConnectHeadView,
    body: Seq<u8>,
    e: ErrorView,
)
    requires
        200 <= head.status <= 299,
    ensures
        head.encoding is None && body.len() > head.limit ==> (head.finished(
            Ok(body),
        ) matches ConnectOutcomeView::Failed(x) && x.code == ErrorCode::ResourceExhausted),
        head.finished(Err(e)) == ConnectOutcomeView::Failed(e),
        head.concluded(Err(e)) matches ConnectOutcomeView::Failed(x) && x.message == e.message
            && x.code == if e.code == ErrorCode::InvalidArgument {
            ErrorCode::DataLoss
        } else if e.code == ErrorCode::Unimplemented {
            ErrorCode::Internal
        } else {
            e.code
        },
{
}

/// The head of a gRPC or gRPC-Web response with a single message: taken with a
/// successful status, a gRPC content type or none, and an encoding that the client
/// can read or none.
pub proof fn grpc_head_is_taken(
    status: u16,
    h: headers::Headers,
    config: ConfigView,
    options: OptionsView,
    tail: Seq<char>,
    encoding: Seq<char>,
)
    requires
        200 <= status <= 299,
        laws::is_plain(tail),
        !h.dom().contains("content-type"@) || laws::says(
            h,
            "content-type"@,
            "application/grpc"@ + tail,
        ),
        laws::can_unpack(config.compression, encoding),
        !h.dom().contains("grpc-encoding"@) || laws::says(h, "grpc-encoding"@, encoding),
    ensures
        grpc_unary::grpc_head(status, h, config, options) matches Ok(g) && {
            &&& g.headers == h
            &&& g.encoding == if h.dom().contains("grpc-encoding"@) {
                Some(encoding)
            } else {
                None
            }
            &&& g.compression == config.compression
            &&& g.protocol == config.protocol
            &&& g.max_message_size == options.max_message_size
            &&& g.limit() == streams::size_limit(options.max_message_size)
            &&& g.buf.len() == 0
            &&& g.trailers == headers::no_headers()
            &&& !g.has_body_data
        },
{
    types_are_plain(tail);
    encoding_is_plain(encoding);
    if h.dom().contains("content-type"@) {
        laws::plain_text_is_read(h, "content-type"@, "application/grpc"@ + tail);
    }
    if h.dom().contains("grpc-encoding"@) {
        laws::plain_text_is_read(h, "grpc-encoding"@, encoding);
    }
}

/// The head of a gRPC or gRPC-Web response is refused for its HTTP status, then
/// for a content type that is not gRPC's, then for an encoding that the client
/// does not know; the error carries the headers.
pub proof fn grpc_head_is_refused(
    status: u16,
    h: headers::Headers,
    config: ConfigView,
    options: OptionsView,
    ct: Seq<char>,
    encoding: Seq<char>,
)
    requires
        laws::is_plain(ct),
        laws::is_plain(encoding),
    ensures
        ({
            let bad_type = laws::says(h, "content-type"@, ct) && !text::starts(
                ct,
                "application/grpc"@,
            );
            let bad_encoding = laws::says(h, "grpc-encoding"@, encoding) && !laws::can_unpack(
                config.compression,
                encoding,
            );
            let r = grpc_unary::grpc_head(status, h, config, options);
            let success = 200 <= status <= 299;
            &&& !success ==> (r matches Err(e) && e.code == streams::protocol_code(status)
                && e.response_headers == h)
            &&& success && bad_type ==> (r matches Err(e) && e.code == ErrorCode::Unknown
                && e.response_headers == h)
            &&& success && bad_encoding && (!h.dom().contains("content-type"@) || (laws::says(
                h,
                "content-type"@,
                ct,
            ) && text::starts(ct, "application/grpc"@))) ==> (r matches Err(e) && e.code
                == ErrorCode::Internal && e.response_headers == h)
        }),
{
    if laws::says(h, "content-type"@, ct) {
        laws::plain_text_is_read(h, "content-type"@, ct);
    }
    if laws::says(h, "grpc-encoding"@, encoding) {
        laws::plain_text_is_read(h, "grpc-encoding"@, encoding);
    }
}

/// A gRPC response from the head to the message: one envelope that a server made
/// with the encoding it names, and trailers with status zero.
pub proof fn grpc_response_gives_its_message(
    g: GrpcView,
    encoder: EncoderView,
    encoding: Seq<char>,
    message: Seq<u8>,
    sent: Seq<u8>,
    t: headers::Headers,
    read: Option<headers::Headers>,
    deadline_passed: bool,
)
    requires
        g.protocol != Protocol::Connect,
        g.buf.len() == 0,
        g.encoding == Some(encoding),
        encoding == "gzip"@ && g.compression.gzip,
        encoder.compression == Some((g.compression, encoding)),
        encoder.encodes(message, Ok(sent)),
        message.len() <= streams::size_limit(g.max_message_size),
        sent.len() <= 5 + streams::size_limit(g.max_message_size),
        sent.len() <= usize::MAX,
        laws::says(t, "grpc-status"@, text::decimal(0)),
    ensures
        ({
            let events = seq![EventView::Data(sent), EventView::Trailers(t), EventView::Eof];
            g.read_all(events) matches Progress::Complete(next) && next.finished(
                read,
                deadline_passed,
            ) == Ok::<ResponseView, ErrorView>(
                ResponseView { headers: g.headers, message, trailers: t },
            )
        }),
{
    reveal_strlit("gzip");
    reveal_strlit("identity");
    assert("gzip"@.len() != "identity"@.len());
    errors::status_is_read(t, 0);
    let events = seq![EventView::Data(sent), EventView::Trailers(t), EventView::Eof];
    one_envelope_is_no_trailer_frame(encoder, message, sent);
    reveal_with_fuel(GrpcView::read_all, 4);
    assert(events.drop_last() =~= seq![EventView::Data(sent), EventView::Trailers(t)]);
    assert(events.drop_last().drop_last() =~= seq![EventView::Data(sent)]);
    assert(events.drop_last().drop_last().drop_last() =~= Seq::empty());
    assert(g.filled(sent) =~= sent);
    let next = GrpcView {
        buf: sent,
        has_body_data: g.has_body_data || sent.len() > 0,
        trailers: t,
        ..g
    };
    assert(g.read_all(events) == Progress::Complete(next));
    next.sent_response_succeeds(encoder, message, read, deadline_passed);
}

/// The envelope of a message is no trailer frame, nor does it hold one.
proof fn one_envelope_is_no_trailer_frame(
    encoder: EncoderView,
    message: Seq<u8>,
    sent: Seq<u8>,
)
    requires
        encoder.encodes(message, Ok(sent)),
    ensures
        sent.len() >= 5,
        envelope::trailer_frame_end(sent, 0) is None,
{
    let flags = encoder.flags_for(message.len());
    let payload = choose|payload: Seq<u8>|
        #![trigger encoder.carries(message, payload)]
        encoder.carries(message, payload) && payload.len() <= u32::MAX && sent == envelope::framed(
            flags,
            payload,
        );
    laws::flags_are_bits(flags);
    envelope::length_bytes_round_trip(payload.len(), flags, payload);
    assert(sent[0] == flags);
    reveal_with_fuel(envelope::trailer_frame_end, 2);
}

/// How a gRPC response with a single message ends: with the error for its status;
/// with an error when no status came, `deadline_exceeded` past the deadline and
/// `internal` else; with `unimplemented` when there is no message; with
/// `resource_exhausted` when it is over the caller's limit; else with the message. Trailers decide, or the headers when nothing but them came; errors
/// carry the headers.
pub proof fn grpc_response_ends_by_its_status(
    g: GrpcView,
    message: Option<Seq<u8>>,
    trailers: headers::Headers,
    deadline_passed: bool,
    status: u32,
)
    ensures
        ({
            let r = g.settled(message, trailers, deadline_passed);
            let from_headers = !g.has_body_data && trailers == headers::no_headers();
            let deciding = if from_headers {
                g.headers
            } else {
                trailers
            };
            &&& laws::says(deciding, "grpc-status"@, text::decimal(status as nat)) && status != 0
                ==> (r matches Err(e) && e.code == errors::code_numbered(status as nat)
                && e.response_headers == g.headers && e.message == grpc::error_in(
                deciding,
            )->Some_0.message && e.details == grpc::error_in(deciding)->Some_0.details
                && e.trailers == grpc::error_in(deciding)->Some_0.trailers)
            &&& !deciding.dom().contains("grpc-status"@) ==> (r matches Err(e) && e.code == if deadline_passed {
                ErrorCode::DeadlineExceeded
            } else {
                ErrorCode::Internal
            } && e.response_headers == g.headers)
            &&& laws::says(deciding, "grpc-status"@, text::decimal(0)) && message is None ==> (
            r matches Err(e) && e.code == ErrorCode::Unimplemented && e.response_headers
                == g.headers)
            &&& laws::says(deciding, "grpc-status"@, text::decimal(0)) && message is Some ==> if (
            g.max_message_size matches Some(n) && message->Some_0.len() > n) {
                r matches Err(e) && e.code == ErrorCode::ResourceExhausted
            } else {
                r == Ok::<ResponseView, ErrorView>(
                    ResponseView { headers: g.headers, message: message->Some_0, trailers },
                )
            }
        }),
{
    let deciding = if !g.has_body_data && trailers == headers::no_headers() {
        g.headers
    } else {
        trailers
    };
    if laws::says(deciding, "grpc-status"@, text::decimal(status as nat)) {
        errors::status_is_read(deciding, status);
    }
    if laws::says(deciding, "grpc-status"@, text::decimal(0)) {
        errors::status_is_read(deciding, 0);
    }
}

/// What a gRPC response with a single message is refused for: an envelope over the
/// limit, with `resource_exhausted` when the caller set the limit; and a
/// compressed envelope without a usable encoding, with `internal`.
pub proof fn grpc_envelope_can_be_refused(
    g: GrpcView,
    flags: u8,
    payload: Seq<u8>,
    read: Option<headers::Headers>,
    deadline_passed: bool,
)
    requires
        g.buf == envelope::framed(flags, payload),
        payload.len() <= u32::MAX,
        flags == 0 || flags == 1,
    ensures
        payload.len() > streams::size_limit(g.max_message_size) ==> (g.finished(
            read,
            deadline_passed,
        ) matches Err(e) && e.code == if g.max_message_size is Some {
            ErrorCode::ResourceExhausted
        } else {
            ErrorCode::Internal
        }),
        payload.len() <= streams::size_limit(g.max_message_size) && flags == 1 && (g.encoding is None
            || g.encoding == Some("identity"@)) ==> (g.finished(read, deadline_passed) matches Err(e)
            && e.code == ErrorCode::Internal),
{
    laws::flags_are_bits(flags);
    assert(g.buf + Seq::<u8>::empty() =~= g.buf);
    assert(g.buf[0] == flags);
    if payload.len() <= g.limit() {
        envelope::take_inverts_framing(flags, payload, Seq::empty(), g.limit());
    } else {
        envelope::take_refuses_large_payload(flags, payload, Seq::empty(), g.limit());
    }
}

/// A body that cannot be read, or grows beyond what one message and a trailer
/// frame of 64 KiB need, is an error.
pub proof fn grpc_body_is_bounded(g: GrpcView, d: Seq<u8>, cause: Seq<char>)
    requires
        g.buf.len() <= g.buffer_limit(),
    ensures
        g.limit() + 5 + 65536 <= usize::MAX ==> g.buffer_limit() == streams::size_limit(
            g.max_message_size,
        ) + 5 + 65536,
        g.protocol == Protocol::Grpc && g.buf.len() + d.len() > g.buffer_limit() ==> (g.read(
            EventView::Data(d),
        ) matches Progress::Failed(_, e) && e.code == ErrorCode::ResourceExhausted),
        g.protocol == Protocol::Grpc && g.buf.len() + d.len() <= g.buffer_limit() && d.len() > 0
            ==> g.read(EventView::Data(d)) == Progress::More(
            GrpcView { buf: g.buf + d, has_body_data: true, ..g },
        ),
        g.read(EventView::Error(cause)) matches Progress::Failed(_, e) && e.code
            == ErrorCode::Internal,
        g.read(EventView::Eof) == Progress::Complete(g),
{
}

/// A Connect client-streaming response from the head to the message: one envelope
/// that a server made with the encoding that the head names, and an END_STREAM
/// envelope without an error.
pub proof fn client_stream_response_gives_its_message(
    status: u16,
    h: headers::Headers,
    config: ConfigView,
    options: OptionsView,
    encoder: EncoderView,
    encoding: Seq<char>,
    message: Seq<u8>,
    sent: Seq<u8>,
    contents: Seq<u8>,
    more: Seq<u8>,
    e: EndStreamView,
)
    requires
        200 <= status <= 299,
        config.protocol == Protocol::Connect,
        laws::can_unpack(config.compression, encoding),
        laws::says(h, "connect-content-encoding"@, encoding),
        encoder.compression == Some((config.compression, encoding)),
        encoder.encodes(message, Ok(sent)),
        message.len() <= streams::size_limit(options.max_message_size),
        sent.len() <= 5 + streams::size_limit(options.max_message_size),
        contents.len() <= streams::size_limit(options.max_message_size),
        contents.len() <= u32::MAX,
    ensures
        client_stream::client_stream_start(
            status,
            h,
            config,
            options,
        ) matches ClientStartView::Response(head) && {
            let body = sent + (envelope::framed(2, contents) + more);
            let found = EnvelopesView { message: Some(message), end_stream: Some(contents) };
            &&& head.headers == h
            &&& head.limit == streams::size_limit(options.max_message_size)
            &&& head.finished(Ok(body)) == Ok::<EnvelopesView, ErrorView>(found)
            &&& e.error is None ==> found.concluded(e, h) == Ok::<
                (Seq<u8>, headers::Headers),
                ErrorView,
            >(
                (
                    message,
                    match e.metadata {
                        Some(m) => end_stream::end_trailers(m),
                        None => headers::no_headers(),
                    },
                ),
            )
            &&& e.error matches Some(x) ==> (found.concluded(e, h) matches Err(f) && {
                let said = unary::described_error(x, ErrorCode::Unknown);
                &&& f.code == said.code && f.message == said.message && f.details == said.details
                &&& f.response_headers == h
                &&& f.trailers == match e.metadata {
                    Some(m) => end_stream::end_trailers(m),
                    None => headers::no_headers(),
                }
            })
        },
{
    encoding_is_plain(encoding);
    laws::plain_text_is_read(h, "connect-content-encoding"@, encoding);
    client_stream::complete_response_is_read(
        encoder,
        message,
        sent,
        contents,
        more,
        config.compression,
        Some(encoding),
        streams::size_limit(options.max_message_size),
    );
}

/// A Connect client-streaming response that is no success: an HTTP status of an
/// error is an error response; a body without a message, or with a second one, is
/// `unimplemented`, and one that was cut off `internal`.
pub proof fn client_stream_response_can_be_refused(
    status: u16,
    h: headers::Headers,
    config: ConfigView,
    options: OptionsView,
    found: EnvelopesView,
    e: EndStreamView,
    x: ErrorView,
    body: Seq<u8>,
)
    ensures
        status < 200 || status > 299 ==> (client_stream::client_stream_start(
            status,
            h,
            config,
            options,
        ) matches ClientStartView::ErrorResponse(r) && {
            &&& r.status == status
            &&& r.headers == h
            &&& r.limit == streams::size_limit(options.max_message_size)
            &&& !h.dom().contains("content-encoding"@) ==> r.finished(Ok(body))
                == StreamErrorOutcomeView::Body { status, headers: h, body }
            &&& r.finished(Err(x)) == StreamErrorOutcomeView::Failed(x)
        }),
        found.message is None && (found.end_stream is None || e.error is None) ==> (found.concluded(
            e,
            h,
        ) matches Err(f) && f.code == ErrorCode::Unimplemented),
        found.message is Some && found.end_stream is None ==> (found.concluded(e, h) matches Err(f)
            && f.code == ErrorCode::Internal),
{
}

/// An error response on a stream stands for the error that its body describes,
/// compressed or not, with `content-encoding` for the body as a whole.
pub proof fn error_response_of_a_client_stream_is_read(
    status: u16,
    h: headers::Headers,
    config: ConfigView,
    options: OptionsView,
    encoding: Seq<char>,
    body: Seq<u8>,
    packed: Seq<u8>,
)
    requires
        status < 200 || status > 299,
        laws::can_unpack(config.compression, encoding),
        laws::says(h, "content-encoding"@, encoding),
        config.compression.is_packed(encoding, body, packed),
        body.len() <= streams::size_limit(options.max_message_size),
    ensures
        client_stream::client_stream_start(
            status,
            h,
            config,
            options,
        ) matches ClientStartView::ErrorResponse(r) && r.finished(Ok(packed))
            == (StreamErrorOutcomeView::Body { status, headers: h, body }),
{
    encoding_is_plain(encoding);
    laws::plain_text_is_read(h, "content-encoding"@, encoding);
    config.compression.decompression_inverts_compression(
        encoding,
        body,
        packed,
        streams::size_limit(options.max_message_size),
    );
}

/// The protocol of the client decides who reads a response: Connect responses as
/// such, and those of gRPC and gRPC-Web alike, for unary and client-streaming
/// calls.
pub proof fn the_protocol_decides_who_reads(
    status: u16,
    h: headers::Headers,
    config: ConfigView,
    options: OptionsView,
)
    ensures
        ({
            let unary_reader = response::unary_reader(status, h, config, options);
            let stream_reader = response::client_stream_reader(status, h, config, options);
            let connect = unary::connect_head(status, h, config, options);
            let grpc = grpc_unary::grpc_head(status, h, config, options);
            let start = client_stream::client_stream_start(status, h, config, options);
            if config.protocol == Protocol::Connect {
                &&& connect matches Ok(r) ==> unary_reader == Ok::<UnaryReaderView, ErrorView>(
                    UnaryReaderView::Connect(r),
                )
                &&& connect matches Err(e) ==> unary_reader == Err::<UnaryReaderView, ErrorView>(e)
                &&& stream_reader == Ok::<ClientStreamReaderView, ErrorView>(
                    ClientStreamReaderView::Connect(start),
                )
            } else {
                &&& grpc matches Ok(r) ==> unary_reader == Ok::<UnaryReaderView, ErrorView>(
                    UnaryReaderView::Grpc(r),
                ) && stream_reader == Ok::<ClientStreamReaderView, ErrorView>(
                    ClientStreamReaderView::Grpc(r),
                )
                &&& grpc matches Err(e) ==> unary_reader == Err::<UnaryReaderView, ErrorView>(e)
                    && stream_reader == Err::<ClientStreamReaderView, ErrorView>(e)
            }
        }),
{
}

/// A body of one envelope and a trailer frame ends with the frame, whatever follows.
proof fn web_body_ends_with_its_frame(message: Seq<u8>, frame: Seq<u8>, rest: Seq<u8>)
    requires
        message.len() <= u32::MAX,
        frame.len() >= 5,
        frame[0] == 128,
        envelope::length_at(frame + rest, 0) + 5 == frame.len(),
    ensures
        ({
            let sent = envelope::framed(0, message);
            let all = sent + frame + rest;
            let end = sent.len() + frame.len();
            &&& envelope::trailer_frame_end(all, 0) == Some(end)
            &&& all.take(end as int) == sent + frame
        }),
{
    let sent = envelope::framed(0, message);
    let all = sent + frame + rest;
    let at = sent.len() as int;
    laws::flags_are_bits(0);
    laws::flags_are_bits(128);
    assert(all =~= seq![0u8] + envelope::length_bytes(message.len()) + (message + frame + rest));
    envelope::length_bytes_round_trip(message.len(), 0, message + frame + rest);
    assert(all[0] == 0);
    assert(all[at] == frame[0]);
    let tail = frame + rest;
    assert(all[at + 1] == tail[1] && all[at + 2] == tail[2] && all[at + 3] == tail[3] && all[at
        + 4] == tail[4]);
    reveal_with_fuel(envelope::trailer_frame_end, 3);
    assert(all.take(at + frame.len()) =~= sent + frame);
}

/// A gRPC-Web response from the body to the message: one envelope and a trailer
/// frame with status zero, in one piece or more, whatever follows.
#[verifier::spinoff_prover]
pub proof fn web_response_gives_its_message(
    g: GrpcView,
    message: Seq<u8>,
    fields: Seq<(Seq<char>, Seq<char>)>,
    rest: Seq<u8>,
    deadline_passed: bool,
    r: Result<ResponseView, ErrorView>,
)
    requires
        g.protocol == Protocol::GrpcWeb,
        g.buf.len() == 0,
        message.len() <= streams::size_limit(g.max_message_size),
        message.len() <= u32::MAX,
        forall|i: int| 0 <= i < fields.len() ==> grpc::is_line_field(#[trigger] fields[i]),
        vstd::utf8::encode_utf8(grpc::trailer_block(fields)).len() <= 1024 * 1024,
        (envelope::framed(0, message) + streams::web_trailers(fields) + rest).len()
            <= g.buffer_limit(),
        headers::has_room(streams::as_headers(fields)),
        laws::says(streams::as_headers(fields), "grpc-status"@, text::decimal(0)),
    ensures
        g.read(
            EventView::Data(envelope::framed(0, message) + streams::web_trailers(fields) + rest),
        ) matches Progress::Complete(next) && (next.can_finish(deadline_passed, r) ==> r == Ok::<
            ResponseView,
            ErrorView,
        >(
            ResponseView { headers: g.headers, message, trailers: streams::as_headers(fields) },
        )),
{
    let sent = envelope::framed(0, message);
    let frame = streams::web_trailers(fields);
    let all = sent + frame + rest;
    let t = streams::as_headers(fields);
    let decompression = match g.encoding {
        Some(enc) => Some((g.compression, enc)),
        None => None,
    };
    streams::web_trailers_are_read(fields, rest, decompression);
    streams::web_trailers_are_read(fields, Seq::empty(), decompression);
    errors::status_is_read(t, 0);
    assert(frame + Seq::<u8>::empty() =~= frame);
    assert(g.filled(all) =~= all);
    web_body_ends_with_its_frame(message, frame, rest);
    let next = GrpcView { buf: sent + frame, has_body_data: true, ..g };
    let encoder = EncoderView {
        compression: None,
        policy: crate::compression::CompressionPolicy { enabled: false, min_size: 0 },
    };
    assert(encoder.encodes(message, Ok(sent))) by {
        assert(encoder.carries(message, message));
    }
    assert(next.frame_trailers(Some(frame)) == Some(t));
    next.web_response_succeeds(encoder, message, sent, frame, deadline_passed);
    next.outcome_is_unique(deadline_passed, r);
}

/// A message that was cut off is no message: neither kind of response with a single
/// message succeeds with it.
pub proof fn cut_off_message_is_no_message(
    g: GrpcView,
    head: ClientHeadView,
    flags: u8,
    payload: Seq<u8>,
    n: int,
    t: headers::Headers,
    read: Option<headers::Headers>,
    deadline_passed: bool,
    e: EndStreamView,
)
    requires
        0 <= n < 5 + payload.len(),
        flags < 128,
        payload.len() <= u32::MAX,
        payload.len() <= streams::size_limit(g.max_message_size),
        payload.len() <= head.limit,
        g.has_body_data,
        g.buf == envelope::framed(flags, payload).take(n),
        g.trailers == t,
        laws::says(t, "grpc-status"@, text::decimal(0)),
    ensures
        g.finished(read, deadline_passed) matches Err(x) && x.code == ErrorCode::Unimplemented,
        head.finished(Ok(g.buf)) matches Ok(found) && {
            &&& found.message is None && found.end_stream is None
            &&& found.concluded(e, head.headers) matches Err(x) && x.code
                == ErrorCode::Unimplemented
        },
{
    let b = envelope::framed(flags, payload);
    laws::flags_are_bits(flags);
    laws::framing_makes_an_envelope(flags, payload);
    laws::envelopes_are_taken_one_by_one(b, flags, payload, Seq::empty(), g.limit(), n);
    laws::envelopes_are_taken_one_by_one(
        b,
        flags,
        payload,
        Seq::empty(),
        head.limit as nat,
        n,
    );
    if n > 0 {
        assert(g.buf[0] == b[0]);
    }
    errors::status_is_read(t, 0);
    reveal_with_fuel(GrpcView::scanned, 2);
    reveal_with_fuel(client_stream::scanned, 2);
}

/// The body of a response to a client stream may hold one message of the largest
/// size, the END_STREAM envelope's header and 64 KiB for what that holds.
pub proof fn client_stream_body_is_bounded(head: ClientHeadView)
    ensures
        head.limit + 10 + 65536 <= usize::MAX ==> head.body_limit() == head.limit + 10 + 65536,
        head.limit + 10 + 65536 > usize::MAX ==> head.body_limit() == usize::MAX,
{
}

/// The trailers of a frame in the body replace those of HTTP; a frame that cannot
/// be read leaves them.
pub proof fn trailers_in_the_body_count_first(
    g: GrpcView,
    message: Seq<u8>,
    frame: Seq<u8>,
    t: headers::Headers,
    deadline_passed: bool,
)
    requires
        frame.len() > 0,
        frame[0] >= 128,
        message.len() <= streams::size_limit(g.max_message_size),
        message.len() <= u32::MAX,
    ensures
        ({
            let alone = GrpcView { buf: frame, ..g };
            let after = GrpcView { buf: envelope::framed(0, message) + frame, ..g };
            &&& alone.finished(Some(t), deadline_passed) == alone.settled(None, t, deadline_passed)
            &&& alone.finished(None, deadline_passed) == alone.settled(
                None,
                g.trailers,
                deadline_passed,
            )
            &&& after.finished(Some(t), deadline_passed) == after.settled(
                Some(message),
                t,
                deadline_passed,
            )
            &&& after.finished(None, deadline_passed) == after.settled(
                Some(message),
                g.trailers,
                deadline_passed,
            )
        }),
{
    laws::flags_are_bits(0);
    laws::flags_are_bits(frame[0]);
    let after = GrpcView { buf: envelope::framed(0, message) + frame, ..g };
    assert(after.buf[0] == 0);
    envelope::take_inverts_framing(0, message, frame, g.limit());
    reveal_with_fuel(GrpcView::scanned, 3);
}

/// The body of a gRPC response with a single message is read piece by piece: data
/// is added, the last trailers stay, an error fails it and the end completes it.
pub proof fn grpc_body_is_read_piece_by_piece(
    g: GrpcView,
    data: Seq<u8>,
    t: headers::Headers,
    cause: Seq<char>,
)
    requires
        g.protocol == Protocol::Grpc,
        g.buf.len() + data.len() <= g.buffer_limit(),
    ensures
        g.read(EventView::Data(data)) == Progress::More(
            GrpcView { buf: g.buf + data, has_body_data: g.has_body_data || data.len() > 0, ..g },
        ),
        g.read(EventView::Trailers(t)) == Progress::More(GrpcView { trailers: t, ..g }),
        g.read(EventView::Eof) == Progress::Complete(g),
        g.read(EventView::Error(cause)) matches Progress::Failed(next, e) && next == g && e.code
            == ErrorCode::Internal && e.message == Some("failed to read response body: "@ + cause),
{
    if g.buf.len() >= g.buffer_limit() {
        assert(g.buf + data =~= g.buf);
    }
}

} // verus!
