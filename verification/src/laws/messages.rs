//! What the errors of calls say to whoever reads them.

use vstd::prelude::*;
use crate::body::EventView;
use crate::call::CallView;
use crate::call;
use crate::client_stream::EnvelopesView;
use crate::client_stream;
use crate::compression::CompressionRegistry;
use crate::config::{ConfigView, OptionsView};
use crate::end_stream::EndStreamView;
use crate::envelope;
use crate::error::{ErrorCode, ErrorView};
use crate::grpc;
use crate::grpc_unary::GrpcView;
use crate::grpc_unary;
use crate::headers;
use crate::laws::streams;
use crate::laws;
use crate::protocol::Protocol;
use crate::stream::StreamView;
use crate::text;
use crate::transport::ClientMode;
use crate::uri;

verus! {

/// Why a call cannot be made: its URI, with what the parser says of it; a GET in a
/// protocol that has none; an encoding that no header can name.
pub proof fn requests_that_cannot_be_made(
    config: ConfigView,
    service: Seq<char>,
    method: Seq<char>,
    message: Seq<u8>,
    options: OptionsView,
    r: Result<CallView, ErrorView>,
    path: Seq<char>,
    cause: Seq<char>,
)
    ensures
        uri::method_uri(config.base_uri, service, method) matches Err(e) ==> e.code
            == ErrorCode::Internal && (e.message matches Some(m) && text::starts(
            m,
            "invalid URI: "@,
        )),
        uri::uri_parsed(path) == Err::<Seq<char>, Seq<char>>(cause) ==> (uri::call_uri(
            path,
            "invalid GET URI: "@,
        ) matches Err(e) && e.code == ErrorCode::Internal && e.message == Some(
            "invalid GET URI: "@ + cause,
        )),
        call::is_get_call(config, service, method, Ok(message), options, r) && r is Err
            && config.protocol == Protocol::Connect && config.request_compression is None ==> (
        r->Err_0.message matches Some(m) && text::starts(m, "invalid GET URI: "@)),
        call::get_needs_connect().message == Some(
            "call_unary_get requires Protocol::Connect (gRPC/gRPC-Web are POST-only)"@,
        ),
        call::unbuildable().code == ErrorCode::Internal,
        call::unbuildable().message == Some(
            "failed to build request: failed to parse header value"@,
        ),
{
    if let Err(e) = uri::uri_parsed(uri::method_path(config.base_uri, service, method)) {
        let p = "invalid URI: "@;
        assert((p + e).take(p.len() as int) =~= p);
    }
    if call::is_get_call(config, service, method, Ok(message), options, r) && r is Err
        && config.protocol == Protocol::Connect && config.request_compression is None {
        let p = "invalid GET URI: "@;
        let get = call::get_path(config, service, method, message, false);
        if let Err(e) = uri::uri_parsed(get) {
            assert((p + e).take(p.len() as int) =~= p);
        }
    }
}

/// What the wrong kind of client says of a URI's scheme.
pub proof fn wrong_schemes_are_named()
    ensures
        ClientMode::Plaintext.refusal(Some("https"@)) matches Some(e) && e.message == Some(
            "HttpClient::plaintext() received https:// URI; use HttpClient::with_tls for TLS"@,
        ),
        ClientMode::Tls.refusal(Some("http"@)) matches Some(e) && e.message == Some(
            "HttpClient::with_tls() received http:// URI; use HttpClient::plaintext for cleartext"@,
        ),
{
}

/// Why the head of a gRPC response with a single message is refused.
pub proof fn refused_grpc_heads(
    status: u16,
    h: headers::Headers,
    config: ConfigView,
    options: OptionsView,
    ct: Seq<char>,
    encoding: Seq<char>,
)
    requires
        laws::is_plain(ct),
        laws::is_plain(encoding),
    ensures
        ({
            let r = grpc_unary::grpc_head(status, h, config, options);
            let success = 200 <= status <= 299;
            &&& !success ==> (r matches Err(e) && e.message == Some(
                "HTTP error "@ + text::decimal(status as nat),
            ))
            &&& success && laws::says(h, "content-type"@, ct) && !text::starts(
                ct,
                "application/grpc"@,
            ) ==> (r matches Err(e) && e.message == Some("unexpected content-type: "@ + ct))
            &&& success && !h.dom().contains("content-type"@) && laws::says(
                h,
                "grpc-encoding"@,
                encoding,
            ) && !laws::can_unpack(config.compression, encoding) ==> (r matches Err(e)
                && e.message == Some("unsupported response compression: "@ + encoding))
        }),
{
    if laws::says(h, "content-type"@, ct) {
        laws::plain_text_is_read(h, "content-type"@, ct);
    }
    if laws::says(h, "grpc-encoding"@, encoding) {
        laws::plain_text_is_read(h, "grpc-encoding"@, encoding);
    }
}

/// Why a gRPC response with a single message fails once its head is taken.
pub proof fn failed_grpc_responses(
    g: GrpcView,
    message: Option<Seq<u8>>,
    trailers: headers::Headers,
    payload: Seq<u8>,
    flags: u8,
)
    requires
        g.has_body_data,
        flags % 2 == 1,
    ensures
        !trailers.dom().contains("grpc-status"@) ==> {
            &&& g.settled(message, trailers, true) matches Err(e) && e.message == Some(
                "request timeout"@,
            )
            &&& g.settled(message, trailers, false) matches Err(e) && e.message == Some(
                "gRPC response missing grpc-status trailer"@,
            )
        },
        trailers.dom().contains("grpc-status"@) && grpc::error_in(trailers) is None ==> (g.settled(
            None,
            trailers,
            false,
        ) matches Err(e) && e.message == Some("gRPC response contained no message data"@)),
        g.encoding is None ==> (g.opened(flags, payload) matches Err(e) && e.code
            == ErrorCode::Internal && e.message == Some(
            "received compressed message without grpc-encoding header"@,
        )),
        g.encoding == Some("identity"@) ==> (g.opened(flags, payload) matches Err(e) && e.code
            == ErrorCode::Internal && e.message == Some(
            "received compressed message with identity encoding"@,
        )),
{
    laws::flags_are_bits(flags);
}

/// A gRPC response with a second message says that it has too many.
pub proof fn second_grpc_message_is_named(g: GrpcView, first: Seq<u8>, second: Seq<u8>, read: Option<
    headers::Headers,
>, deadline_passed: bool)
    requires
        first.len() <= streams::size_limit(g.max_message_size),
        second.len() <= streams::size_limit(g.max_message_size),
        first.len() <= u32::MAX,
        second.len() <= u32::MAX,
        g.buf == envelope::framed(0, first) + envelope::framed(0, second),
    ensures
        g.finished(read, deadline_passed) matches Err(e) && {
            &&& e.code == ErrorCode::Unimplemented
            &&& e.message == Some(
                "received multiple response messages where exactly one was expected"@,
            )
            &&& e.response_headers == g.headers
        },
{
    laws::flags_are_bits(0);
    let b = envelope::framed(0, second);
    envelope::take_inverts_framing(0, first, b, g.limit());
    envelope::take_inverts_framing(0, second, Seq::empty(), g.limit());
    assert(b + Seq::<u8>::empty() =~= b);
    assert(g.buf[0] == 0 && b[0] == 0);
    reveal_with_fuel(GrpcView::scanned, 3);
}

/// Why a stream fails: without a status, for a compressed message without an
/// encoding, for its size, and when its body cannot be read.
pub proof fn failed_streams(
    s: StreamView,
    t: headers::Headers,
    payload: Seq<u8>,
    flags: u8,
    d: Seq<u8>,
    cause: Seq<char>,
    read: Option<headers::Headers>,
    deadline_passed: bool,
)
    requires
        s.end is None,
        s.saw_body_data,
        flags % 2 == 1,
        !t.dom().contains("grpc-status"@),
    ensures
        s.classified(Some(t), true).outcome matches Err(e) && e.message == Some("request timeout"@),
        s.classified(None, true).outcome matches Err(e) && e.message == Some("request timeout"@),
        s.classified(Some(t), false).outcome matches Err(e) && e.message == Some(
            "protocol error: grpc-status missing from trailers"@,
        ),
        s.classified(None, false).outcome matches Err(e) && e.message == Some(
            "stream ended without grpc-status"@,
        ),
        s.encoding is None ==> (s.opened(flags, payload) matches Err(e) && e.message == Some(
            "received compressed message without content-encoding header"@,
        )),
        s.fed(EventView::Error(cause), read, deadline_passed).end matches Some(end) && (
        end.outcome matches Err(e) && e.message == Some("error reading response body: "@ + cause)),
        s.buf.len() + d.len() > s.buffer_limit() ==> (s.fed(
            EventView::Data(d),
            read,
            deadline_passed,
        ).end matches Some(end) && (end.outcome matches Err(e) && e.message == Some(
            "response buffer exceeds limit "@ + text::decimal(s.buffer_limit()),
        ))),
{
    laws::flags_are_bits(flags);
}

/// Why the response to a client stream fails.
pub proof fn failed_client_streams(
    registry: CompressionRegistry,
    limit: usize,
    payload: Seq<u8>,
    e: EndStreamView,
    h: headers::Headers,
    contents: Seq<u8>,
)
    ensures
        client_stream::opened(1, payload, registry, None, limit) matches Err(x) && x.message
            == Some("received compressed message without encoding header"@),
        client_stream::opened(3, payload, registry, None, limit) matches Err(x) && x.message
            == Some("received compressed END_STREAM without encoding header"@),
        (EnvelopesView { message: None, end_stream: None }).concluded(e, h) matches Err(x)
            && x.message == Some("client streaming response contains no data messages"@),
        (EnvelopesView { message: Some(payload), end_stream: None }).concluded(e, h) matches Err(x)
            && x.message == Some(
            "Connect streaming response ended without END_STREAM envelope"@,
        ),
        e.error is Some ==> (EnvelopesView { message: None, end_stream: Some(contents) }).concluded(
            e,
            h,
        ) == (EnvelopesView { message: Some(payload), end_stream: Some(contents) }).concluded(
            e,
            h,
        ),
{
    laws::flags_are_bits(1);
    laws::flags_are_bits(3);
}

/// A second message in the response to a client stream is named.
pub proof fn second_client_stream_message_is_named(
    first: Seq<u8>,
    second: Seq<u8>,
    registry: CompressionRegistry,
    encoding: Option<Seq<char>>,
    limit: usize,
)
    requires
        first.len() <= limit,
        second.len() <= limit,
        first.len() <= u32::MAX,
        second.len() <= u32::MAX,
    ensures
        client_stream::scanned(
            envelope::framed(0, first) + envelope::framed(0, second),
            None,
            registry,
            encoding,
            limit,
        ) matches Err(e) && e.code == ErrorCode::Unimplemented && e.message == Some(
            "client streaming response contains multiple data messages"@,
        ),
{
    laws::flags_are_bits(0);
    let b = envelope::framed(0, second);
    envelope::take_inverts_framing(0, first, b, limit as nat);
    envelope::take_inverts_framing(0, second, Seq::empty(), limit as nat);
    assert(b + Seq::<u8>::empty() =~= b);
    reveal_with_fuel(client_stream::scanned, 3);
}

} // verus!
