use std::collections::VecDeque;

use connectrpc::bidi::{call_bidi_stream, BidiStep, BidiStream};
use connectrpc::body::{BodyCollector, BodyEvent};
use connectrpc::client_stream::{
    parse_connect_client_stream_envelopes, parse_connect_client_stream_response,
    ClientStreamStart,
};
use connectrpc::compression::CompressionRegistry;
use connectrpc::config::{CallOptions, ClientConfig};
use connectrpc::end_stream::{ClientEndStreamError, ClientEndStreamResponse};
use connectrpc::envelope::Envelope;
use connectrpc::error::{ConnectError, ErrorCode, ErrorDetail};
use connectrpc::protocol::{CodecFormat, Protocol};
use connectrpc::stream::{
    make_server_stream, ServerStream, StreamErrorOutcome, StreamStart, StreamStep,
};
use connectrpc::unary::{ConnectErrorResponse, UnaryResponse};

fn text(v: &serde_json::Value) -> Option<String> {
    v.as_str().map(|s| s.to_owned())
}

fn details(v: &serde_json::Value) -> Vec<ErrorDetail> {
    let empty = Vec::new();
    v.as_array()
        .unwrap_or(&empty)
        .iter()
        .map(|d| ErrorDetail {
            type_url: text(&d["type"]).unwrap_or_default(),
            value: text(&d["value"]),
            debug: None,
        })
        .collect()
}

fn parse_end_stream(data: &[u8]) -> ClientEndStreamResponse {
    let v: serde_json::Value = match serde_json::from_slice(data) {
        Ok(v) => v,
        Err(_) => return ClientEndStreamResponse::default(),
    };
    let error = if v["error"].is_object() {
        Some(ClientEndStreamError {
            code: text(&v["error"]["code"]),
            message: text(&v["error"]["message"]),
            details: details(&v["error"]["details"]),
        })
    } else {
        None
    };
    let metadata = v["metadata"].as_object().map(|m| {
        m.iter()
            .map(|(name, values)| {
                let values = values.as_array().unwrap().iter().map(|x| text(x).unwrap());
                (name.clone(), values.collect())
            })
            .collect()
    });
    ClientEndStreamResponse { error, metadata }
}

/// Reads the next message of a stream out of a body.
fn next_message(
    stream: &mut ServerStream,
    body: &mut VecDeque<BodyEvent>,
) -> Result<Option<Vec<u8>>, ConnectError> {
    loop {
        match stream.message(false) {
            StreamStep::Ended(Ok(())) => return Ok(None),
            StreamStep::Ended(Err(e)) => return Err(e),
            StreamStep::Message(m) => return Ok(Some(m)),
            StreamStep::EndStream(data) => stream.on_end_stream(parse_end_stream(&data)),
            StreamStep::NeedBody => {
                let event = body.pop_front().unwrap_or(BodyEvent::Eof);
                stream.on_body(event, false);
            }
        }
    }
}

fn stream(protocol: Protocol, headers: http::HeaderMap) -> ServerStream {
    ServerStream {
        headers,
        buf: Vec::new(),
        encoding: None,
        compression: CompressionRegistry::new(),
        codec_format: CodecFormat::Proto,
        protocol,
        max_message_size: Some(1024),
        end: None,
        saw_body_data: false,
    }
}

fn data(bytes: &[u8]) -> BodyEvent {
    BodyEvent::Data(bytes.to_vec())
}

/// The protobuf encoding of a string value.
const HELLO: &[u8] = b"\x0a\x05hello";

fn hello() -> Vec<u8> {
    Envelope::data(HELLO.to_vec()).encode()
}

#[test]
fn client_types_are_debug() {
    fn assert_debug<T: std::fmt::Debug>() {}
    assert_debug::<UnaryResponse<()>>();
    assert_debug::<ServerStream>();
    assert_debug::<BidiStream>();
}

#[test]
fn connect_server_stream_truncated_after_data_errors() {
    let mut body = VecDeque::from([data(&hello())]);
    let mut stream = stream(Protocol::Connect, http::HeaderMap::new());

    let msg = next_message(&mut stream, &mut body).unwrap().unwrap();
    assert_eq!(msg, HELLO);

    let err = next_message(&mut stream, &mut body).unwrap_err();
    assert_eq!(err.code, ErrorCode::Internal);
    assert!(err.to_string().contains("END_STREAM"));

    let again = next_message(&mut stream, &mut body).unwrap_err();
    assert_eq!(again.code, ErrorCode::Internal);
}

#[test]
fn connect_server_stream_empty_body_errors() {
    let mut body = VecDeque::new();
    let mut stream = stream(Protocol::Connect, http::HeaderMap::new());

    let err = next_message(&mut stream, &mut body).unwrap_err();
    assert_eq!(err.code, ErrorCode::Internal);
    assert!(err.to_string().contains("END_STREAM"));

    let again = next_message(&mut stream, &mut body).unwrap_err();
    assert_eq!(again.code, ErrorCode::Internal);
}

#[test]
fn connect_end_stream_error_returned_from_message() {
    let mut bytes = hello();
    bytes.extend_from_slice(
        &Envelope::end_stream(
            b"{\"error\":{\"code\":\"out_of_range\",\"message\":\"requested position no longer retained\"},\
              \"metadata\":{\"x-detail\":[\"42\"]}}"
                .to_vec(),
        )
        .encode(),
    );
    let mut body = VecDeque::from([data(&bytes)]);
    let mut stream = stream(Protocol::Connect, http::HeaderMap::new());

    let msg = next_message(&mut stream, &mut body).unwrap().unwrap();
    assert_eq!(msg, HELLO);

    let err = next_message(&mut stream, &mut body).unwrap_err();
    assert_eq!(err.code, ErrorCode::OutOfRange);
    assert_eq!(err.message.as_deref(), Some("requested position no longer retained"));

    let again = next_message(&mut stream, &mut body).unwrap_err();
    assert_eq!(again.code, ErrorCode::OutOfRange);

    assert_eq!(stream.error().map(|e| e.code), Some(ErrorCode::OutOfRange));
    assert_eq!(
        stream.trailers().and_then(|t| t.get("x-detail")).and_then(|v| v.to_str().ok()),
        Some("42")
    );
}

#[test]
fn grpc_trailer_error_returned_from_message() {
    let mut trailers = http::HeaderMap::new();
    trailers.insert("grpc-status", "11".parse().unwrap());
    trailers.insert(
        "grpc-message",
        "requested position no longer retained".parse().unwrap(),
    );
    let mut body = VecDeque::from([data(&hello()), BodyEvent::Trailers(trailers)]);
    let mut stream = stream(Protocol::Grpc, http::HeaderMap::new());

    let msg = next_message(&mut stream, &mut body).unwrap().unwrap();
    assert_eq!(msg, HELLO);

    let err = next_message(&mut stream, &mut body).unwrap_err();
    assert_eq!(err.code, ErrorCode::OutOfRange);
    assert_eq!(err.message.as_deref(), Some("requested position no longer retained"));

    let again = next_message(&mut stream, &mut body).unwrap_err();
    assert_eq!(again.code, ErrorCode::OutOfRange);
    assert!(stream.trailers().is_some());
}

#[test]
fn grpc_ok_trailers_end_as_ok_none() {
    let mut trailers = http::HeaderMap::new();
    trailers.insert("grpc-status", "0".parse().unwrap());
    let mut body = VecDeque::from([BodyEvent::Trailers(trailers)]);
    let mut stream = stream(Protocol::Grpc, http::HeaderMap::new());

    assert!(next_message(&mut stream, &mut body).unwrap().is_none());
    assert!(stream.error().is_none());
    assert!(stream.trailers().is_some());
}

#[test]
fn grpc_eof_without_trailers_errors() {
    let mut body = VecDeque::new();
    let mut stream = stream(Protocol::Grpc, http::HeaderMap::new());

    let err = next_message(&mut stream, &mut body).unwrap_err();
    assert_eq!(err.code, ErrorCode::Internal);
    assert!(err.to_string().contains("grpc-status"));

    let again = next_message(&mut stream, &mut body).unwrap_err();
    assert_eq!(again.code, ErrorCode::Internal);
}

#[test]
fn grpc_header_status_does_not_excuse_truncation_after_data() {
    let mut headers = http::HeaderMap::new();
    headers.insert("grpc-status", "0".parse().unwrap());
    let mut body = VecDeque::from([data(&hello())]);
    let mut stream = stream(Protocol::Grpc, headers);

    let msg = next_message(&mut stream, &mut body).unwrap().unwrap();
    assert_eq!(msg, HELLO);

    let err = next_message(&mut stream, &mut body).unwrap_err();
    assert_eq!(err.code, ErrorCode::Internal);
}

#[test]
fn grpc_trailers_only_ok_response_ends_cleanly() {
    let mut headers = http::HeaderMap::new();
    headers.insert("grpc-status", "0".parse().unwrap());
    let mut body = VecDeque::new();
    let mut stream = stream(Protocol::Grpc, headers);

    assert!(next_message(&mut stream, &mut body).unwrap().is_none());
    assert!(stream.error().is_none());
    assert!(next_message(&mut stream, &mut body).unwrap().is_none());
}

#[test]
fn grpc_trailers_without_status_errors() {
    let mut trailers = http::HeaderMap::new();
    trailers.insert("x-meta", "1".parse().unwrap());
    let mut body = VecDeque::from([BodyEvent::Trailers(trailers)]);
    let mut stream = stream(Protocol::Grpc, http::HeaderMap::new());

    let err = next_message(&mut stream, &mut body).unwrap_err();
    assert_eq!(err.code, ErrorCode::Unknown);
    assert!(stream.trailers().is_some());

    let again = next_message(&mut stream, &mut body).unwrap_err();
    assert_eq!(again.code, ErrorCode::Unknown);
}

#[test]
fn grpc_malformed_status_errors() {
    let mut trailers = http::HeaderMap::new();
    trailers.insert("grpc-status", "banana".parse().unwrap());
    let mut body = VecDeque::from([BodyEvent::Trailers(trailers)]);
    let mut stream = stream(Protocol::Grpc, http::HeaderMap::new());

    let err = next_message(&mut stream, &mut body).unwrap_err();
    assert_eq!(err.code, ErrorCode::Unknown);
    assert!(err.to_string().contains("malformed grpc-status"));

    let again = next_message(&mut stream, &mut body).unwrap_err();
    assert_eq!(again.code, ErrorCode::Unknown);
}

#[test]
fn missing_status_past_the_deadline_is_the_deadline() {
    let mut cut = stream(Protocol::Grpc, http::HeaderMap::new());
    cut.on_body(BodyEvent::Eof, true);
    assert_eq!(cut.error().map(|e| e.code), Some(ErrorCode::DeadlineExceeded));

    let mut waiting = stream(Protocol::Connect, http::HeaderMap::new());
    waiting.on_deadline();
    assert_eq!(waiting.error().map(|e| e.code), Some(ErrorCode::DeadlineExceeded));
    assert!(waiting.trailers().is_none());
}

#[test]
fn the_first_end_stays() {
    let mut s = stream(Protocol::Connect, http::HeaderMap::new());
    s.on_error(ConnectError::internal("first"));
    s.on_error(ConnectError::unavailable("second"));
    s.on_body(data(&hello()), false);
    s.on_end_stream(ClientEndStreamResponse::default());
    assert_eq!(s.error().unwrap().to_string(), "internal: first");
    assert!(matches!(s.message(false), StreamStep::Ended(Err(_))));
}

#[test]
fn messages_do_not_depend_on_chunking() {
    let mut bytes = hello();
    bytes.extend_from_slice(&Envelope::data(b"second".to_vec()).encode());
    bytes.extend_from_slice(
        &Envelope::end_stream(b"{\"metadata\":{\"x\":[\"1\",\"2\"]}}".to_vec()).encode(),
    );
    for size in 1..=bytes.len() {
        let mut body: VecDeque<_> = bytes.chunks(size).map(data).collect();
        let mut s = stream(Protocol::Connect, http::HeaderMap::new());
        assert_eq!(next_message(&mut s, &mut body).unwrap().unwrap(), HELLO);
        assert_eq!(next_message(&mut s, &mut body).unwrap().unwrap(), b"second");
        assert!(next_message(&mut s, &mut body).unwrap().is_none());
        assert_eq!(s.trailers().unwrap().get_all("x").iter().count(), 2);
    }
}

#[test]
fn grpc_web_stream_ends_with_its_trailer_frame() {
    let mut bytes = hello();
    let payload = b"grpc-status: 8\r\nx-a: 1\r\n";
    bytes.push(0x80);
    bytes.extend_from_slice(&(payload.len() as u32).to_be_bytes());
    bytes.extend_from_slice(payload);
    for size in [1, 4, bytes.len()] {
        let mut body: VecDeque<_> = bytes.chunks(size).map(data).collect();
        let mut s = stream(Protocol::GrpcWeb, http::HeaderMap::new());
        assert_eq!(next_message(&mut s, &mut body).unwrap().unwrap(), HELLO);
        let e = next_message(&mut s, &mut body).unwrap_err();
        assert_eq!(e.code, ErrorCode::ResourceExhausted);
        assert_eq!(e.trailers().get("x-a").unwrap(), "1");
        assert_eq!(s.trailers().unwrap().get("grpc-status").unwrap(), "8");
    }
    let mut cut: VecDeque<_> = VecDeque::from([data(&bytes[..bytes.len() - 1])]);
    let mut s = stream(Protocol::GrpcWeb, http::HeaderMap::new());
    assert!(next_message(&mut s, &mut cut).unwrap().is_some());
    let e = next_message(&mut s, &mut cut).unwrap_err();
    assert_eq!(e.code, ErrorCode::Internal);
    assert_eq!(e.message.as_deref(), Some("stream ended without grpc-status"));
}

#[test]
fn stream_refuses_what_is_too_large() {
    let mut s = stream(Protocol::Connect, http::HeaderMap::new());
    let mut body = VecDeque::from([data(&[0, 0, 0, 4, 1])]);
    let e = next_message(&mut s, &mut body).unwrap_err();
    assert_eq!(e.code, ErrorCode::ResourceExhausted);
    assert_eq!(e.message.as_deref(), Some("message size 1025 exceeds limit 1024"));

    let mut s = stream(Protocol::Connect, http::HeaderMap::new());
    s.on_body(data(&vec![0; 1024 + 10 + 65_536]), false);
    assert!(s.error().is_none());
    s.on_body(data(&[0]), false);
    let e = s.error().unwrap();
    assert_eq!(e.code, ErrorCode::ResourceExhausted);
    assert_eq!(e.message.as_deref(), Some("response buffer exceeds limit 66570"));
}

#[test]
fn stream_decompresses_messages() {
    let registry = CompressionRegistry::default();
    let packed = registry.compress("gzip", b"large enough").unwrap();
    let envelope = Envelope::compressed(packed).encode();

    let mut s = stream(Protocol::Connect, http::HeaderMap::new());
    s.compression = registry;
    s.encoding = Some("gzip".to_owned());
    let mut body = VecDeque::from([data(&envelope)]);
    assert_eq!(next_message(&mut s, &mut body).unwrap().unwrap(), b"large enough");

    let mut s = stream(Protocol::Connect, http::HeaderMap::new());
    let mut body = VecDeque::from([data(&envelope)]);
    let e = next_message(&mut s, &mut body).unwrap_err();
    assert_eq!(e.code, ErrorCode::Internal);
    assert_eq!(
        e.message.as_deref(),
        Some("received compressed message without content-encoding header")
    );

    let mut s = stream(Protocol::Connect, http::HeaderMap::new());
    s.encoding = Some("gzip".to_owned());
    let mut body = VecDeque::from([data(&envelope)]);
    let e = next_message(&mut s, &mut body).unwrap_err();
    assert_eq!(e.code, ErrorCode::Internal);
}

#[test]
fn transport_failures_and_connect_trailers() {
    let mut s = stream(Protocol::Connect, http::HeaderMap::new());
    s.on_body(BodyEvent::Trailers(http::HeaderMap::new()), false);
    assert!(s.end.is_none());
    s.on_body(BodyEvent::Error("reset".to_owned()), false);
    assert_eq!(
        s.error().unwrap().message.as_deref(),
        Some("error reading response body: reset")
    );
}

#[test]
fn stream_heads() {
    let registry = CompressionRegistry::default();
    let mut headers = http::HeaderMap::new();
    headers.insert("connect-content-encoding", "gzip".parse().unwrap());
    match make_server_stream(
        200,
        headers.clone(),
        Protocol::Connect,
        registry,
        CodecFormat::Proto,
        None,
    ) {
        StreamStart::Stream(s) => {
            assert_eq!(s.encoding.as_deref(), Some("gzip"));
            assert_eq!(s.headers().len(), 1);
        }
        other => panic!("unexpected start: {other:?}"),
    }

    let mut reported = http::HeaderMap::new();
    reported.insert("grpc-status", "16".parse().unwrap());
    match make_server_stream(
        200,
        reported,
        Protocol::Grpc,
        registry,
        CodecFormat::Proto,
        None,
    ) {
        StreamStart::Failed(e) => {
            assert_eq!(e.code, ErrorCode::Unauthenticated);
            assert_eq!(e.response_headers().get("grpc-status").unwrap(), "16");
        }
        other => panic!("unexpected start: {other:?}"),
    }

    match make_server_stream(
        503,
        headers,
        Protocol::GrpcWeb,
        registry,
        CodecFormat::Proto,
        None,
    ) {
        StreamStart::Failed(e) => {
            assert_eq!(e.code, ErrorCode::Unavailable);
            assert_eq!(e.message.as_deref(), Some("HTTP error 503"));
        }
        other => panic!("unexpected start: {other:?}"),
    }
}

fn error_start(encoding: Option<&str>) -> connectrpc::stream::StreamErrorResponse {
    let mut headers = http::HeaderMap::new();
    headers.insert("x-h", "1".parse().unwrap());
    if let Some(e) = encoding {
        headers.insert("content-encoding", e.parse().unwrap());
    }
    match make_server_stream(
        404,
        headers,
        Protocol::Connect,
        CompressionRegistry::default(),
        CodecFormat::Proto,
        Some(100),
    ) {
        StreamStart::ErrorResponse(r) => r,
        other => panic!("unexpected start: {other:?}"),
    }
}

#[test]
fn connect_error_response_on_a_stream() {
    assert_eq!(error_start(None).body_limit(), 100);
    match error_start(None).finish(Ok(b"{}".to_vec())) {
        StreamErrorOutcome::Body(b) => {
            assert_eq!(b.body, b"{}");
            let e = b.into_error(Some(ConnectErrorResponse {
                code: Some("aborted".to_owned()),
                message: Some("stop".to_owned()),
                details: Vec::new(),
            }));
            assert_eq!(e.code, ErrorCode::Aborted);
            assert_eq!(e.message.as_deref(), Some("stop"));
            assert_eq!(e.response_headers().get("x-h").unwrap(), "1");
        }
        other => panic!("unexpected outcome: {other:?}"),
    }
    match error_start(None).finish(Ok(b"no json".to_vec())) {
        StreamErrorOutcome::Body(b) => {
            let e = b.into_error(None);
            assert_eq!(e.code, ErrorCode::Unimplemented);
            assert_eq!(e.message.as_deref(), Some("HTTP error 404"));
        }
        other => panic!("unexpected outcome: {other:?}"),
    }
    match error_start(Some("gzip")).finish(Ok(b"no gzip".to_vec())) {
        StreamErrorOutcome::Failed(e) => {
            assert_eq!(e.message.as_deref(), Some("HTTP error 404"));
            assert_eq!(e.response_headers().get("x-h").unwrap(), "1");
        }
        other => panic!("unexpected outcome: {other:?}"),
    }
    match error_start(None).finish(Err(ConnectError::internal("io"))) {
        StreamErrorOutcome::Failed(e) => {
            assert_eq!(e.message.as_deref(), Some("io"));
            assert!(e.response_headers().is_empty());
        }
        other => panic!("unexpected outcome: {other:?}"),
    }
}

/// Looks through a client-streaming response and reads its END_STREAM envelope.
fn parse_client_stream(
    body: Vec<u8>,
    registry: &CompressionRegistry,
    encoding: Option<&str>,
    max_msg_size: usize,
    resp_headers: &http::HeaderMap,
) -> Result<(Vec<u8>, http::HeaderMap), ConnectError> {
    let envelopes = parse_connect_client_stream_envelopes(body, registry, encoding, max_msg_size)?;
    let end_stream = match &envelopes.end_stream {
        Some(data) => parse_end_stream(data),
        None => ClientEndStreamResponse::default(),
    };
    envelopes.conclude(end_stream, resp_headers)
}

#[test]
fn client_stream_response_rejects_second_message_before_decompression() {
    let registry = CompressionRegistry::default();

    let mut body = Envelope::data(b"first".to_vec()).encode();
    body.extend_from_slice(&Envelope::compressed(b"not gzip data".to_vec()).encode());
    body.extend_from_slice(&Envelope::end_stream(b"{}".to_vec()).encode());

    let err = parse_client_stream(
        body,
        &registry,
        Some("gzip"),
        1024 * 1024,
        &http::HeaderMap::new(),
    )
    .unwrap_err();
    assert_eq!(err.code, ErrorCode::Unimplemented);
    assert!(err.to_string().contains("multiple data messages"));
}

#[test]
fn malformed_compressed_response_payload_is_data_loss() {
    let registry = CompressionRegistry::default();

    let mut body = Envelope::compressed(b"not gzip data".to_vec()).encode();
    body.extend_from_slice(&Envelope::end_stream(b"{}".to_vec()).encode());

    let err = parse_client_stream(
        body,
        &registry,
        Some("gzip"),
        1024 * 1024,
        &http::HeaderMap::new(),
    )
    .unwrap_err();
    assert_eq!(err.code, ErrorCode::DataLoss);
}

#[test]
fn client_stream_response_stops_at_end_stream() {
    let registry = CompressionRegistry::new();

    let mut body = Envelope::data(b"only".to_vec()).encode();
    body.extend_from_slice(
        &Envelope::end_stream(b"{\"metadata\":{\"x-extra\":[\"1\"]}}".to_vec()).encode(),
    );
    body.extend_from_slice(&[0xAA_u8; 256]);

    let (message, trailers) =
        parse_client_stream(body, &registry, None, 1024, &http::HeaderMap::new()).unwrap();
    assert_eq!(&message[..], b"only");
    assert_eq!(trailers.get("x-extra").unwrap(), "1");
}

#[test]
fn client_stream_response_end_stream_error() {
    let registry = CompressionRegistry::new();

    let mut body = Envelope::data(b"only".to_vec()).encode();
    body.extend_from_slice(
        &Envelope::end_stream(
            b"{\"metadata\":{\"x-meta\":[\"m\"]},\"error\":{\"code\":\"resource_exhausted\",\"message\":\"too much\"}}"
                .to_vec(),
        )
        .encode(),
    );

    let mut resp_headers = http::HeaderMap::new();
    resp_headers.insert("x-from-headers", http::HeaderValue::from_static("yes"));

    let err = parse_client_stream(body, &registry, None, 1024, &resp_headers).unwrap_err();
    assert_eq!(err.code, ErrorCode::ResourceExhausted);
    assert_eq!(err.message.as_deref(), Some("too much"));
    assert_eq!(
        err.response_headers().get("x-from-headers").unwrap(),
        "yes",
        "response headers must be attached to the END_STREAM error"
    );
    assert_eq!(
        err.trailers().get("x-meta").unwrap(),
        "m",
        "END_STREAM metadata must be attached to the error as trailers"
    );
}

#[test]
fn client_stream_response_requires_a_message() {
    let registry = CompressionRegistry::new();
    let body = Envelope::end_stream(b"{}".to_vec()).encode();

    let err =
        parse_client_stream(body, &registry, None, 1024, &http::HeaderMap::new()).unwrap_err();
    assert_eq!(err.code, ErrorCode::Unimplemented);
    assert!(err.to_string().contains("no data messages"));
}

#[test]
fn client_stream_response_compressed_envelopes() {
    let registry = CompressionRegistry::default();

    let mut body = Envelope::compressed(registry.compress("gzip", b"only").unwrap()).encode();
    let mut end_stream = Envelope::compressed(
        registry.compress("gzip", b"{\"metadata\":{\"x-extra\":[\"1\"]}}").unwrap(),
    )
    .encode();
    end_stream[0] |= 0x02;
    body.extend_from_slice(&end_stream);

    let (message, trailers) = parse_client_stream(
        body,
        &registry,
        Some("gzip"),
        1024 * 1024,
        &http::HeaderMap::new(),
    )
    .unwrap();
    assert_eq!(&message[..], b"only");
    assert_eq!(trailers.get("x-extra").unwrap(), "1");
}

#[test]
fn client_stream_response_data_after_end_stream_is_not_a_message() {
    let registry = CompressionRegistry::new();

    let mut body = Envelope::end_stream(b"{}".to_vec()).encode();
    body.extend_from_slice(&Envelope::data(b"late".to_vec()).encode());

    let err =
        parse_client_stream(body, &registry, None, 1024, &http::HeaderMap::new()).unwrap_err();
    assert_eq!(err.code, ErrorCode::Unimplemented);
    assert!(err.to_string().contains("no data messages"));
}

#[test]
fn client_stream_response_requires_end_stream_after_message() {
    let registry = CompressionRegistry::new();

    let body = Envelope::data(b"only".to_vec()).encode();

    let err =
        parse_client_stream(body, &registry, None, 1024, &http::HeaderMap::new()).unwrap_err();
    assert_eq!(err.code, ErrorCode::Internal);
    assert_eq!(
        err.message.as_deref(),
        Some("Connect streaming response ended without END_STREAM envelope"),
    );
}

#[test]
fn client_stream_response_requires_complete_end_stream_after_message() {
    let registry = CompressionRegistry::new();

    let mut body = Envelope::data(b"only".to_vec()).encode();
    let end_stream = Envelope::end_stream(b"{}".to_vec()).encode();
    body.extend_from_slice(&end_stream[..end_stream.len() - 1]);

    let err =
        parse_client_stream(body, &registry, None, 1024, &http::HeaderMap::new()).unwrap_err();
    assert_eq!(err.code, ErrorCode::Internal);
    assert_eq!(
        err.message.as_deref(),
        Some("Connect streaming response ended without END_STREAM envelope"),
    );
}

#[test]
fn client_stream_response_end_stream_completes_the_response() {
    let registry = CompressionRegistry::new();

    let mut body = Envelope::data(b"only".to_vec()).encode();
    body.extend_from_slice(&Envelope::end_stream(b"{}".to_vec()).encode());

    let (message, trailers) =
        parse_client_stream(body, &registry, None, 1024, &http::HeaderMap::new()).unwrap();
    assert_eq!(&message[..], b"only");
    assert!(trailers.is_empty());
}

#[test]
fn client_stream_response_from_head_to_end() {
    let config = ClientConfig::new("http://localhost".parse().unwrap());
    let options = CallOptions::default().with_max_message_size(100);
    let mut headers = http::HeaderMap::new();
    headers.insert("x-h", "1".parse().unwrap());

    let response =
        match parse_connect_client_stream_response(200, headers.clone(), &config, &options) {
            ClientStreamStart::Response(r) => r,
            other => panic!("unexpected start: {other:?}"),
        };
    assert_eq!(response.body_limit(), 100 + 10 + 65_536);
    let mut body = Envelope::data(b"only".to_vec()).encode();
    body.extend_from_slice(&Envelope::end_stream(b"{}".to_vec()).encode());
    let envelopes = response.finish(Ok(body)).unwrap();
    let got = response.conclude(envelopes, ClientEndStreamResponse::default()).unwrap();
    assert_eq!(got.headers().get("x-h").unwrap(), "1");
    assert!(got.trailers().is_empty());
    let (_, message, _) = got.into_parts();
    assert_eq!(message, b"only");

    match parse_connect_client_stream_response(500, headers, &config, &options) {
        ClientStreamStart::ErrorResponse(r) => assert_eq!(r.body_limit(), 100),
        other => panic!("unexpected start: {other:?}"),
    }
}

#[test]
fn unusable_trailers_of_an_end_stream_are_dropped() {
    let mut s = stream(Protocol::Connect, http::HeaderMap::new());
    s.on_end_stream(ClientEndStreamResponse {
        error: Some(ClientEndStreamError {
            code: Some("nonsense".to_owned()),
            message: None,
            details: Vec::new(),
        }),
        metadata: Some(vec![
            ("bad name".to_owned(), vec!["1".to_owned()]),
            ("x-ok".to_owned(), vec!["a\nb".to_owned(), "2".to_owned()]),
        ]),
    });
    let e = s.error().unwrap();
    assert_eq!(e.code, ErrorCode::Unknown);
    assert_eq!(e.message.as_deref(), Some(""));
    let trailers = s.trailers().unwrap();
    assert_eq!(trailers.len(), 1);
    assert_eq!(trailers.get("x-ok").unwrap(), "2");
}

fn collect(events: Vec<BodyEvent>, max_size: usize) -> Result<Vec<u8>, ConnectError> {
    let mut collector = BodyCollector::new(max_size);
    for event in events {
        if let Some(r) = collector.on_event(event) {
            return r;
        }
    }
    panic!("body without an end")
}

#[test]
fn collect_body_bounded_within_limit() {
    let got = collect(vec![data(b"hello"), BodyEvent::Eof], 10).unwrap();
    assert_eq!(&got[..], b"hello");
}

#[test]
fn collect_body_bounded_at_exact_limit() {
    let got = collect(vec![data(b"hello"), BodyEvent::Eof], 5).unwrap();
    assert_eq!(&got[..], b"hello");
}

#[test]
fn collect_body_bounded_exceeds_limit() {
    let err = collect(vec![data(b"hello world"), BodyEvent::Eof], 5).unwrap_err();
    assert_eq!(err.code, ErrorCode::ResourceExhausted);
}

#[test]
fn collect_body_bounded_empty() {
    let got = collect(vec![data(b""), BodyEvent::Eof], 0).unwrap();
    assert!(got.is_empty());
}

#[test]
fn collect_body_bounded_multi_frame_exceeds_mid_stream() {
    let err = collect(vec![data(b"aaa"), data(b"bbb"), data(b"ccc"), BodyEvent::Eof], 7)
        .unwrap_err();
    assert_eq!(err.code, ErrorCode::ResourceExhausted);
}

#[test]
fn collect_body_bounded_multi_frame_within_limit() {
    let got = collect(vec![data(b"foo"), data(b"bar"), BodyEvent::Eof], 10).unwrap();
    assert_eq!(&got[..], b"foobar");
}

#[test]
fn collect_body_bounded_propagates_body_error() {
    let err = collect(vec![BodyEvent::Error("internal: io".to_owned())], 1024).unwrap_err();
    assert_eq!(err.code, ErrorCode::Internal);
    assert_eq!(err.message.as_deref(), Some("failed to read response body: internal: io"));
}

#[test]
fn collecting_passes_over_trailers() {
    let got = collect(
        vec![data(b"a"), BodyEvent::Trailers(http::HeaderMap::new()), data(b"b"), BodyEvent::Eof],
        2,
    )
    .unwrap();
    assert_eq!(&got[..], b"ab");
}

fn bidi() -> BidiStream {
    let config = ClientConfig::new("http://localhost".parse().unwrap());
    call_bidi_stream(&config, "s", "m", CallOptions::default()).unwrap().stream
}

#[test]
fn bidi_call_sends_until_closed() {
    let config = ClientConfig::new("http://localhost".parse().unwrap());
    let call = call_bidi_stream(&config, "s", "m", CallOptions::default()).unwrap();
    assert_eq!(call.request.uri.to_string(), "http://localhost/s/m");
    assert!(call.request.body.is_empty());
    let mut s = call.stream;
    assert_eq!(
        s.send(Ok(b"hi".to_vec()), false).unwrap(),
        Envelope::data(b"hi".to_vec()).encode()
    );
    let e = s.send(Ok(b"hi".to_vec()), true).unwrap_err();
    assert_eq!(e.code, ErrorCode::DeadlineExceeded);
    let e = s.send(Err(ConnectError::internal("bad")), false).unwrap_err();
    assert_eq!(e.message.as_deref(), Some("bad"));
    s.close_send();
    s.close_send();
    let e = s.send(Ok(b"hi".to_vec()), false).unwrap_err();
    assert_eq!(e.code, ErrorCode::Internal);
    assert_eq!(e.message.as_deref(), Some("send after close_send"));
    assert_eq!(BidiStream::closed_by_server().code, ErrorCode::Unavailable);
}

#[test]
fn bidi_stream_reads_the_response() {
    let mut s = bidi();
    assert!(s.headers().is_none());
    assert!(matches!(s.message(false), BidiStep::NeedResponse));
    let mut headers = http::HeaderMap::new();
    headers.insert("x-h", "1".parse().unwrap());
    assert!(s.on_response(Ok((200, headers))).is_none());
    assert_eq!(s.headers().unwrap().get("x-h").unwrap(), "1");
    assert!(matches!(s.message(false), BidiStep::Stream(StreamStep::NeedBody)));
    s.stream_mut().unwrap().on_body(data(&hello()), false);
    match s.message(false) {
        BidiStep::Stream(StreamStep::Message(m)) => assert_eq!(m, HELLO),
        other => panic!("unexpected step: {other:?}"),
    }
    s.stream_mut().unwrap().on_body(BodyEvent::Eof, false);
    assert_eq!(s.error().unwrap().code, ErrorCode::Internal);
    assert!(s.trailers().is_none());
}

#[test]
fn bidi_stream_failure_is_sticky() {
    let mut s = bidi();
    assert!(s.on_response(Err(ConnectError::unavailable("request failed: x"))).is_none());
    for _ in 0..2 {
        match s.message(false) {
            BidiStep::Failed(e) => assert_eq!(e.code, ErrorCode::Unavailable),
            other => panic!("unexpected step: {other:?}"),
        }
    }
    assert_eq!(s.error().unwrap().code, ErrorCode::Unavailable);
    assert!(s.headers().is_none());
    assert!(s.stream_mut().is_none());
}

#[test]
fn bidi_stream_with_an_error_response() {
    let mut s = bidi();
    let response = s.on_response(Ok((404, http::HeaderMap::new()))).unwrap();
    match s.message(false) {
        BidiStep::Failed(e) => assert_eq!(e.message.as_deref(), Some("stream in failed state")),
        other => panic!("unexpected step: {other:?}"),
    }
    match response.finish(Ok(b"x".to_vec())) {
        StreamErrorOutcome::Body(b) => s.on_failure(b.into_error(None)),
        other => panic!("unexpected outcome: {other:?}"),
    }
    assert_eq!(s.error().unwrap().code, ErrorCode::Unimplemented);
}

#[test]
fn end_stream_trailers_are_counted() {
    let entries: Vec<(String, Vec<String>)> =
        (0..6554).map(|i| (format!("x-{i}"), vec!["v".to_owned()])).collect();
    let mut end = ClientEndStreamResponse { error: None, metadata: Some(entries) };
    assert!(!end.check_fit());
    end.metadata.as_mut().unwrap().pop();
    assert!(end.check_fit());
    assert!(ClientEndStreamResponse::default().check_fit());
}

#[test]
fn only_status_200_opens_a_stream() {
    let start = |status: u16, protocol: Protocol| {
        make_server_stream(
            status,
            http::HeaderMap::new(),
            protocol,
            CompressionRegistry::default(),
            CodecFormat::Proto,
            None,
        )
    };
    for protocol in [Protocol::Connect, Protocol::Grpc, Protocol::GrpcWeb] {
        assert!(matches!(start(200, protocol), StreamStart::Stream(_)));
    }
    for status in [201, 204, 206, 299] {
        for protocol in [Protocol::Grpc, Protocol::GrpcWeb] {
            match start(status, protocol) {
                StreamStart::Failed(e) => {
                    assert_eq!(e.code, ErrorCode::Unknown);
                    assert_eq!(e.message, Some(format!("HTTP error {status}")));
                }
                other => panic!("unexpected start: {other:?}"),
            }
        }
        match start(status, Protocol::Connect) {
            StreamStart::ErrorResponse(r) => match r.finish(Ok(Vec::new())) {
                StreamErrorOutcome::Body(b) => {
                    let e = b.into_error(None);
                    assert_eq!(e.code, ErrorCode::Unknown);
                    assert_eq!(e.message, Some(format!("HTTP error {status}")));
                }
                other => panic!("unexpected outcome: {other:?}"),
            },
            other => panic!("unexpected start: {other:?}"),
        }
    }
}

#[test]
fn bidi_stream_needs_status_200() {
    let mut stream = bidi();
    let response = stream.on_response(Ok((204, http::HeaderMap::new())));
    let e = match response.unwrap().finish(Ok(Vec::new())) {
        StreamErrorOutcome::Body(b) => b.into_error(None),
        StreamErrorOutcome::Failed(e) => e,
    };
    stream.on_failure(e);
    match stream.message(false) {
        BidiStep::Failed(e) => assert_eq!(e.message.as_deref(), Some("HTTP error 204")),
        other => panic!("unexpected step: {other:?}"),
    }
}

#[test]
fn bytes_after_an_unreadable_end_stream_are_ignored() {
    let mut body = hello();
    body.extend_from_slice(&Envelope { flags: 3, data: b"no gzip".to_vec() }.encode());
    let registry = CompressionRegistry::default();
    let parse = |b: &[u8]| {
        parse_connect_client_stream_envelopes(b.to_vec(), &registry, Some("gzip"), 100).unwrap_err()
    };
    let e = parse(&body);
    assert_eq!(e.code, ErrorCode::DataLoss);
    body.extend_from_slice(&hello());
    let longer = parse(&body);
    assert_eq!((longer.code, longer.message), (e.code, e.message));
}

#[test]
fn no_message_follows_an_end_stream_envelope() {
    let mut s = stream(Protocol::Connect, http::HeaderMap::new());
    let mut body = Envelope::end_stream(b"{}".to_vec()).encode();
    body.extend_from_slice(&hello());
    s.on_body(data(&body), false);
    for _ in 0..3 {
        match s.message(false) {
            StreamStep::EndStream(d) => assert_eq!(d, b"{}"),
            other => panic!("unexpected step: {other:?}"),
        }
        s.on_body(data(&hello()), false);
    }
    s.on_end_stream(ClientEndStreamResponse::default());
    assert!(matches!(s.message(false), StreamStep::Ended(Ok(()))));
    assert!(s.error().is_none());

    let mut s = stream(Protocol::Connect, http::HeaderMap::new());
    s.on_body(data(&body), false);
    assert!(matches!(s.message(false), StreamStep::EndStream(_)));
    s.on_error(ConnectError::internal("unreadable"));
    match s.message(false) {
        StreamStep::Ended(Err(e)) => assert_eq!(e.message.as_deref(), Some("unreadable")),
        other => panic!("unexpected step: {other:?}"),
    }
}
