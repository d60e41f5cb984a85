use connectrpc::body::BodyEvent;
use connectrpc::client_stream::ClientStreamStart;
use connectrpc::compression::CompressionRegistry;
use connectrpc::config::{CallOptions, ClientConfig};
use connectrpc::envelope::Envelope;
use connectrpc::error::{ConnectError, ErrorCode, ErrorDetail};
use connectrpc::grpc_unary::{parse_grpc_unary_response, GrpcUnaryResponse};
use connectrpc::protocol::Protocol;
use connectrpc::response::{
    check_unary_head, read_client_stream_response, read_unary_response, ClientStreamReader,
    UnaryReader,
};
use connectrpc::unary::{
    decode_response_error, parse_connect_unary_response, ConnectErrorResponse,
    ConnectUnaryOutcome, ConnectUnaryResponse, DecodeStage, UnaryResponse,
};

fn config() -> ClientConfig {
    ClientConfig::new("http://localhost".parse().unwrap())
}

fn headers(pairs: &[(&'static str, &str)]) -> http::HeaderMap {
    let mut h = http::HeaderMap::new();
    for (name, value) in pairs {
        h.append(*name, value.parse().unwrap());
    }
    h
}

fn connect_head(status: u16, pairs: &[(&'static str, &str)]) -> ConnectUnaryResponse {
    let options = CallOptions::default().with_max_message_size(100);
    parse_connect_unary_response(status, &headers(pairs), &config(), &options).unwrap()
}

#[test]
fn connect_message_with_headers_and_trailers() {
    let head = connect_head(
        200,
        &[("content-type", "application/proto"), ("x-h", "1"), ("trailer-x-t", "2")],
    );
    assert_eq!(head.body_limit(), 100);
    match head.finish(Ok(b"hi".to_vec())) {
        ConnectUnaryOutcome::Message(m) => {
            assert_eq!(m.headers().get("x-h").unwrap(), "1");
            assert!(m.headers().get("trailer-x-t").is_none());
            assert_eq!(m.trailers().get("x-t").unwrap(), "2");
            assert_eq!(m.into_view(), b"hi");
        }
        other => panic!("unexpected outcome: {other:?}"),
    }
}

#[test]
fn connect_content_types() {
    let refuse = |ct: &str| {
        parse_connect_unary_response(
            200,
            &headers(&[("content-type", ct)]),
            &config(),
            &CallOptions::default(),
        )
        .unwrap_err()
    };
    let e = refuse("application/json");
    assert_eq!(e.code, ErrorCode::Internal);
    assert_eq!(e.message.as_deref(), Some("unexpected content-type: application/json"));
    let e = refuse("text/html");
    assert_eq!(e.code, ErrorCode::Unknown);
    connect_head(200, &[("content-type", "application/proto; charset=utf-8")]);
    connect_head(200, &[]);
    connect_head(500, &[("content-type", "text/html")]);
}

#[test]
fn connect_compressed_message() {
    let registry = CompressionRegistry::default();
    let packed = registry.compress("gzip", b"hello").unwrap();
    match connect_head(200, &[("content-encoding", "gzip")]).finish(Ok(packed)) {
        ConnectUnaryOutcome::Message(m) => assert_eq!(m.into_view(), b"hello"),
        other => panic!("unexpected outcome: {other:?}"),
    }
    match connect_head(200, &[("content-encoding", "gzip")]).finish(Ok(b"hello".to_vec())) {
        ConnectUnaryOutcome::Failed(e) => assert_eq!(e.code, ErrorCode::DataLoss),
        other => panic!("unexpected outcome: {other:?}"),
    }
    match connect_head(200, &[("content-encoding", "br")]).finish(Ok(b"hello".to_vec())) {
        ConnectUnaryOutcome::Failed(e) => assert_eq!(e.code, ErrorCode::Internal),
        other => panic!("unexpected outcome: {other:?}"),
    }
    let large = registry.compress("gzip", &[0; 101]).unwrap();
    match connect_head(200, &[("content-encoding", "gzip")]).finish(Ok(large)) {
        ConnectUnaryOutcome::Failed(e) => assert_eq!(e.code, ErrorCode::ResourceExhausted),
        other => panic!("unexpected outcome: {other:?}"),
    }
    match connect_head(200, &[]).finish(Ok(vec![0; 101])) {
        ConnectUnaryOutcome::Failed(e) => {
            assert_eq!(e.message.as_deref(), Some("message size 101 exceeds limit 100"))
        }
        other => panic!("unexpected outcome: {other:?}"),
    }
}

#[test]
fn connect_error_body_describes_the_error() {
    let head = connect_head(503, &[("x-h", "1"), ("trailer-x-t", "2")]);
    match head.finish(Ok(b"{...}".to_vec())) {
        ConnectUnaryOutcome::ErrorBody(b) => {
            assert_eq!(b.body, b"{...}");
            let e = b.into_error(Some(ConnectErrorResponse {
                code: Some("not_found".to_owned()),
                message: Some("gone".to_owned()),
                details: vec![ErrorDetail {
                    type_url: "acme.Info".to_owned(),
                    value: Some("AQI".to_owned()),
                    debug: None,
                }],
            }));
            assert_eq!(e.code, ErrorCode::NotFound);
            assert_eq!(e.message.as_deref(), Some("gone"));
            assert_eq!(e.details[0].type_url, "acme.Info");
            assert_eq!(e.response_headers().get("x-h").unwrap(), "1");
            assert_eq!(e.trailers().get("x-t").unwrap(), "2");
        }
        other => panic!("unexpected outcome: {other:?}"),
    }
}

#[test]
fn connect_error_body_without_a_code_or_description() {
    match connect_head(503, &[]).finish(Ok(b"{}".to_vec())) {
        ConnectUnaryOutcome::ErrorBody(b) => {
            let e = b.into_error(Some(ConnectErrorResponse {
                code: Some("nonsense".to_owned()),
                message: None,
                details: Vec::new(),
            }));
            assert_eq!(e.code, ErrorCode::Unavailable);
            assert_eq!(e.message.as_deref(), Some(""));
        }
        other => panic!("unexpected outcome: {other:?}"),
    }
    match connect_head(401, &[]).finish(Ok(b"bad \xff".to_vec())) {
        ConnectUnaryOutcome::ErrorBody(b) => {
            let e = b.into_error(None);
            assert_eq!(e.code, ErrorCode::Unauthenticated);
            assert_eq!(e.message.as_deref(), Some("HTTP error 401: bad \u{FFFD}"));
        }
        other => panic!("unexpected outcome: {other:?}"),
    }
}

#[test]
fn connect_error_body_that_cannot_be_had() {
    let head = connect_head(400, &[("x-h", "1"), ("content-encoding", "gzip")]);
    match head.finish(Ok(b"no gzip".to_vec())) {
        ConnectUnaryOutcome::Failed(e) => {
            assert_eq!(e.code, ErrorCode::Internal);
            assert_eq!(e.message.as_deref(), Some("HTTP error 400"));
            assert_eq!(e.response_headers().get("x-h").unwrap(), "1");
        }
        other => panic!("unexpected outcome: {other:?}"),
    }
    let head = connect_head(400, &[("x-h", "1")]);
    match head.finish(Err(ConnectError::resource_exhausted("too much"))) {
        ConnectUnaryOutcome::Failed(e) => {
            assert_eq!(e.code, ErrorCode::ResourceExhausted);
            assert_eq!(e.response_headers().get("x-h").unwrap(), "1");
        }
        other => panic!("unexpected outcome: {other:?}"),
    }
    match connect_head(200, &[("x-h", "1")]).finish(Err(ConnectError::internal("io"))) {
        ConnectUnaryOutcome::Failed(e) => assert!(e.response_headers().is_empty()),
        other => panic!("unexpected outcome: {other:?}"),
    }
}

fn grpc_options() -> CallOptions {
    CallOptions::default().with_max_message_size(100)
}

fn grpc_head(
    protocol: Protocol,
    pairs: &[(&'static str, &str)],
) -> Result<GrpcUnaryResponse, ConnectError> {
    let config = config().with_protocol(protocol);
    parse_grpc_unary_response(200, headers(pairs), &config, &grpc_options())
}

/// Feeds events until the body is complete.
fn feed(r: &mut GrpcUnaryResponse, events: Vec<BodyEvent>) -> Result<(), ConnectError> {
    for event in events {
        if r.on_body(event)? {
            return Ok(());
        }
    }
    panic!("body without an end")
}

fn grpc_unary(
    protocol: Protocol,
    pairs: &[(&'static str, &str)],
    events: Vec<BodyEvent>,
) -> Result<UnaryResponse<Vec<u8>>, ConnectError> {
    let mut r = grpc_head(protocol, pairs)?;
    feed(&mut r, events)?;
    r.finish(false)
}

fn data(bytes: &[u8]) -> BodyEvent {
    BodyEvent::Data(bytes.to_vec())
}

fn trailer_frame(payload: &[u8]) -> Vec<u8> {
    let mut frame = vec![0x80];
    frame.extend_from_slice(&(payload.len() as u32).to_be_bytes());
    frame.extend_from_slice(payload);
    frame
}

#[test]
fn grpc_unary_rejects_second_message_before_decompression() {
    let mut body = Envelope::data(Vec::new()).encode();
    body.extend_from_slice(&Envelope::compressed(b"not-gzip".to_vec()).encode());

    let config =
        ClientConfig::new("http://localhost".parse().unwrap()).with_protocol(Protocol::Grpc);
    let mut r = parse_grpc_unary_response(
        200,
        headers(&[("content-type", "application/grpc+proto")]),
        &config,
        &CallOptions::default(),
    )
    .unwrap();
    feed(&mut r, vec![data(&body), BodyEvent::Eof]).unwrap();
    let err = r.finish(false).unwrap_err();
    assert_eq!(err.code, ErrorCode::Unimplemented);
    assert_eq!(
        err.message.as_deref(),
        Some("received multiple response messages where exactly one was expected")
    );
}

#[test]
fn grpc_web_unary_stops_reading_after_trailer_frame() {
    let mut body = Envelope::data(b"\x0a\x02hi".to_vec()).encode();
    body.extend_from_slice(&trailer_frame(b"grpc-status: 0\r\n"));

    let config =
        ClientConfig::new("http://localhost".parse().unwrap()).with_protocol(Protocol::GrpcWeb);
    let mut r = parse_grpc_unary_response(
        200,
        headers(&[("content-type", "application/grpc-web+proto")]),
        &config,
        &CallOptions::default(),
    )
    .unwrap();
    assert!(r.on_body(data(&body)).unwrap(), "the trailer frame completes the body");
    let response = r.finish(false).unwrap();
    assert_eq!(
        response.trailers().get("grpc-status").unwrap(),
        http::HeaderValue::from_static("0")
    );
    assert_eq!(response.into_view(), b"\x0a\x02hi");
}

#[test]
fn grpc_web_bytes_after_the_trailer_frame_are_dropped() {
    let mut body = Envelope::data(b"hi".to_vec()).encode();
    body.extend_from_slice(&trailer_frame(b"grpc-status: 0\r\n"));
    body.extend_from_slice(b"server is still writing");
    let r = grpc_unary(Protocol::GrpcWeb, &[], vec![data(&body)]).unwrap();
    assert_eq!(r.into_view(), b"hi");
}

#[test]
fn grpc_unary_success_and_failure() {
    let ok = || BodyEvent::Trailers(headers(&[("grpc-status", "0"), ("x-t", "1")]));
    let message = Envelope::data(b"hi".to_vec()).encode();
    let r = grpc_unary(
        Protocol::Grpc,
        &[("content-type", "application/grpc")],
        vec![data(&message[..3]), data(&message[3..]), ok(), BodyEvent::Eof],
    )
    .unwrap();
    assert_eq!(r.trailers().get("x-t").unwrap(), "1");
    assert_eq!(r.into_view(), b"hi");

    let e = grpc_unary(
        Protocol::Grpc,
        &[("x-h", "1")],
        vec![
            data(&message),
            BodyEvent::Trailers(headers(&[("grpc-status", "7"), ("grpc-message", "no")])),
            BodyEvent::Eof,
        ],
    )
    .unwrap_err();
    assert_eq!(e.to_string(), "permission_denied: no");
    assert_eq!(e.response_headers().get("x-h").unwrap(), "1");

    let e = grpc_unary(Protocol::Grpc, &[], vec![ok(), BodyEvent::Eof]).unwrap_err();
    assert_eq!(e.code, ErrorCode::Unimplemented);
    assert_eq!(e.message.as_deref(), Some("gRPC response contained no message data"));
}

#[test]
fn grpc_unary_status_in_headers_counts_only_without_data() {
    let message = Envelope::data(b"hi".to_vec()).encode();
    let e = grpc_unary(
        Protocol::Grpc,
        &[("grpc-status", "0")],
        vec![data(&message), BodyEvent::Eof],
    )
    .unwrap_err();
    assert_eq!(e.code, ErrorCode::Internal);
    assert_eq!(e.message.as_deref(), Some("gRPC response missing grpc-status trailer"));

    let e = grpc_unary(
        Protocol::Grpc,
        &[("grpc-status", "5"), ("grpc-message", "none")],
        vec![BodyEvent::Eof],
    )
    .unwrap_err();
    assert_eq!(e.to_string(), "not_found: none");
}

#[test]
fn grpc_unary_past_the_deadline() {
    let mut r = grpc_head(Protocol::Grpc, &[]).unwrap();
    feed(&mut r, vec![BodyEvent::Eof]).unwrap();
    let e = r.finish(true).unwrap_err();
    assert_eq!(e.code, ErrorCode::DeadlineExceeded);
    assert_eq!(e.message.as_deref(), Some("request timeout"));
}

#[test]
fn grpc_unary_heads() {
    let config = config().with_protocol(Protocol::Grpc);
    let e = parse_grpc_unary_response(404, headers(&[("x-h", "1")]), &config, &grpc_options())
        .unwrap_err();
    assert_eq!(e.code, ErrorCode::Unimplemented);
    assert_eq!(e.message.as_deref(), Some("HTTP error 404"));
    assert_eq!(e.response_headers().get("x-h").unwrap(), "1");
    let e = grpc_head(Protocol::Grpc, &[("content-type", "text/html")]).unwrap_err();
    assert_eq!(e.code, ErrorCode::Unknown);
    assert_eq!(e.message.as_deref(), Some("unexpected content-type: text/html"));
    let e = grpc_head(Protocol::Grpc, &[("grpc-encoding", "br")]).unwrap_err();
    assert_eq!(e.code, ErrorCode::Internal);
    assert_eq!(e.message.as_deref(), Some("unsupported response compression: br"));
    grpc_head(Protocol::Grpc, &[("grpc-encoding", "identity")]).unwrap();
}

#[test]
fn grpc_unary_compressed_messages() {
    let registry = CompressionRegistry::default();
    let packed = registry.compress("gzip", b"hello").unwrap();
    let body = Envelope::compressed(packed).encode();
    let ok = || BodyEvent::Trailers(headers(&[("grpc-status", "0")]));
    let run = |pairs: &[(&'static str, &str)], body: &[u8]| {
        grpc_unary(Protocol::Grpc, pairs, vec![data(body), ok(), BodyEvent::Eof])
    };
    assert_eq!(run(&[("grpc-encoding", "gzip")], &body).unwrap().into_view(), b"hello");
    let e = run(&[], &body).unwrap_err();
    assert_eq!(
        e.message.as_deref(),
        Some("received compressed message without grpc-encoding header")
    );
    let e = run(&[("grpc-encoding", "identity")], &body).unwrap_err();
    assert_eq!(
        e.message.as_deref(),
        Some("received compressed message with identity encoding")
    );
    let broken = Envelope::compressed(b"no gzip".to_vec()).encode();
    let e = run(&[("grpc-encoding", "gzip")], &broken).unwrap_err();
    assert_eq!(e.code, ErrorCode::DataLoss);
}

#[test]
fn grpc_unary_limits() {
    let large = Envelope::data(vec![0; 101]).encode();
    let e = grpc_unary(Protocol::Grpc, &[], vec![data(&large), BodyEvent::Eof]).unwrap_err();
    assert_eq!(e.code, ErrorCode::ResourceExhausted);
    assert_eq!(
        e.message.as_deref(),
        Some(
            "envelope decode failed: resource_exhausted: message size 101 exceeds limit 100"
        )
    );

    let mut r = grpc_head(Protocol::Grpc, &[]).unwrap();
    assert_eq!(r.buffer_limit(), 100 + 5 + 65_536);
    assert!(!r.on_body(data(&vec![0; 65_641])).unwrap());
    let e = r.on_body(data(&[0])).unwrap_err();
    assert_eq!(e.code, ErrorCode::ResourceExhausted);
    assert_eq!(e.message.as_deref(), Some("response body size exceeds limit 65641"));
    let e = r.on_body(BodyEvent::Error("reset".to_owned())).unwrap_err();
    assert_eq!(e.message.as_deref(), Some("failed to read response body: reset"));
}

#[test]
fn decode_errors_say_where() {
    let e = decode_response_error(DecodeStage::Proto, "x");
    assert_eq!(e.to_string(), "internal: failed to decode response: x");
    let e = decode_response_error(DecodeStage::Json, "x");
    assert_eq!(e.to_string(), "internal: failed to decode JSON response: x");
    let e = decode_response_error(DecodeStage::Reencode, "x");
    assert_eq!(e.to_string(), "internal: failed to re-encode for view: x");
}

#[test]
fn envelopes_round_trip() {
    for payload in [&b""[..], &b"x"[..], &[7u8; 300][..]] {
        let mut buf = Envelope::data(payload.to_vec()).encode();
        buf.extend_from_slice(b"rest");
        let envelope = Envelope::decode_with_limit(&mut buf, 300).unwrap().unwrap();
        assert_eq!(envelope.data, payload);
        assert!(!envelope.is_compressed() && !envelope.is_end_stream());
        assert_eq!(buf, b"rest");
        assert!(Envelope::decode_with_limit(&mut buf, 300).unwrap().is_none());
    }
}

#[test]
fn grpc_envelope_over_the_default_limit_is_internal() {
    let config = config().with_protocol(Protocol::Grpc);
    let mut r =
        parse_grpc_unary_response(200, headers(&[]), &config, &CallOptions::default()).unwrap();
    assert!(!r.on_body(data(&[0, 0x00, 0x40, 0x00, 0x01])).unwrap());
    assert!(r.on_body(BodyEvent::Eof).unwrap());
    let e = r.finish(false).unwrap_err();
    assert_eq!(e.code, ErrorCode::Internal);
    assert_eq!(
        e.message.as_deref(),
        Some(
            "envelope decode failed: resource_exhausted: message size 4194305 exceeds limit 4194304"
        )
    );
}

#[test]
fn grpc_web_body_may_come_in_any_pieces() {
    let mut body = Envelope::data(b"hello".to_vec()).encode();
    body.extend_from_slice(&trailer_frame(b"grpc-status:0\r\nx-t:one\r\nx-t: two \r\n"));
    for size in [1, 3, 7, body.len()] {
        let mut r = grpc_head(Protocol::GrpcWeb, &[]).unwrap();
        let mut pieces = body.chunks(size);
        while !r.on_body(data(pieces.next().unwrap())).unwrap() {}
        assert!(pieces.next().is_none());
        let m = r.finish(false).unwrap();
        let values: Vec<_> = m.trailers().get_all("x-t").iter().collect();
        assert_eq!(values, ["one", "two"]);
        assert_eq!(m.into_view(), b"hello");
    }
}

#[test]
fn connect_trailer_with_a_quoted_name_is_dropped() {
    let mut h = http::HeaderMap::new();
    h.insert(http::HeaderName::from_static("trailer-a\"b"), "1".parse().unwrap());
    h.insert("trailer-x", "2".parse().unwrap());
    let head =
        parse_connect_unary_response(200, &h, &config(), &CallOptions::default()).unwrap();
    match head.finish(Ok(b"hi".to_vec())) {
        ConnectUnaryOutcome::Message(m) => {
            assert!(m.headers().is_empty());
            assert_eq!(m.trailers().len(), 1);
            assert_eq!(m.trailers().get("x").unwrap(), "2");
        }
        other => panic!("unexpected outcome: {other:?}"),
    }
}

#[test]
fn the_protocol_decides_who_reads_a_response() {
    let options = CallOptions::default();
    let connect = config();
    assert!(check_unary_head(&headers(&[]), &connect));
    assert!(matches!(
        read_unary_response(200, headers(&[]), &connect, &options),
        Ok(UnaryReader::Connect(_))
    ));
    assert!(matches!(
        read_client_stream_response(200, headers(&[]), &connect, &options),
        Ok(ClientStreamReader::Connect(ClientStreamStart::Response(_)))
    ));
    assert!(matches!(
        read_client_stream_response(404, headers(&[]), &connect, &options),
        Ok(ClientStreamReader::Connect(ClientStreamStart::ErrorResponse(_)))
    ));
    let e = read_unary_response(200, headers(&[("content-type", "text/html")]), &connect, &options)
        .unwrap_err();
    assert_eq!(e.code, ErrorCode::Unknown);
    for protocol in [Protocol::Grpc, Protocol::GrpcWeb] {
        let grpc = config().with_protocol(protocol);
        assert!(matches!(
            read_unary_response(200, headers(&[]), &grpc, &options),
            Ok(UnaryReader::Grpc(_))
        ));
        assert!(matches!(
            read_client_stream_response(200, headers(&[]), &grpc, &options),
            Ok(ClientStreamReader::Grpc(_))
        ));
        let e = read_unary_response(404, headers(&[]), &grpc, &options).unwrap_err();
        assert_eq!(e.code, ErrorCode::Unimplemented);
        let e = read_client_stream_response(404, headers(&[]), &grpc, &options).unwrap_err();
        assert_eq!(e.code, ErrorCode::Unimplemented);
    }
}

#[test]
fn too_many_connect_trailers_are_told() {
    let mut h = http::HeaderMap::new();
    for i in 0..6554 {
        h.insert(
            http::HeaderName::from_bytes(format!("trailer-{i}").as_bytes()).unwrap(),
            "v".parse().unwrap(),
        );
    }
    assert!(!check_unary_head(&h, &config()));
    assert!(check_unary_head(&h, &config().with_protocol(Protocol::Grpc)));
    h.remove("trailer-0");
    h.insert(http::HeaderName::from_static("trailer-a\"b"), "v".parse().unwrap());
    assert!(check_unary_head(&h, &config()));
}

#[test]
fn unreadable_error_body_is_quoted() {
    let quoted = |body: &[u8]| match connect_head(400, &[]).finish(Ok(body.to_vec())) {
        ConnectUnaryOutcome::ErrorBody(b) => b.into_error(None).message.unwrap(),
        other => panic!("unexpected outcome: {other:?}"),
    };
    assert_eq!(quoted("caf\u{e9}".as_bytes()), "HTTP error 400: caf\u{e9}");
    assert_eq!(quoted(&[b'a', 0xff]), "HTTP error 400: a\u{fffd}");
}
