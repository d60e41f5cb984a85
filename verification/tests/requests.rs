use std::time::Duration;

use base64::Engine;

use connectrpc::bidi::call_bidi_stream;
use connectrpc::call::{
    build_get_path, call_client_stream, call_server_stream, call_unary, call_unary_get,
    check_headers, encode_message, HttpMethod,
};
use connectrpc::compression::{CompressionPolicy, CompressionRegistry};
use connectrpc::config::{CallOptions, ClientConfig};
use connectrpc::envelope::Envelope;
use connectrpc::error::{ConnectError, ErrorCode};
use connectrpc::protocol::{http_status_to_error_code, CodecFormat, Protocol};
use connectrpc::request::{
    add_streaming_request_headers, add_unary_request_headers, streaming_request_content_type,
    unary_request_content_type,
};

#[test]
fn test_unary_request_content_type_connect() {
    let config = ClientConfig::new("http://localhost".parse().unwrap());
    assert_eq!(unary_request_content_type(&config), "application/proto");

    let config = config.with_codec_format(CodecFormat::Json);
    assert_eq!(unary_request_content_type(&config), "application/json");
}

#[test]
fn test_unary_request_content_type_grpc() {
    let config =
        ClientConfig::new("http://localhost".parse().unwrap()).with_protocol(Protocol::Grpc);
    assert_eq!(unary_request_content_type(&config), "application/grpc+proto");

    let config = config.with_codec_format(CodecFormat::Json);
    assert_eq!(unary_request_content_type(&config), "application/grpc+json");
}

#[test]
fn test_streaming_request_content_type() {
    let config = ClientConfig::new("http://localhost".parse().unwrap());
    assert_eq!(streaming_request_content_type(&config), "application/connect+proto");

    let config = config.with_protocol(Protocol::Grpc);
    assert_eq!(streaming_request_content_type(&config), "application/grpc+proto");

    let config = config.with_protocol(Protocol::GrpcWeb);
    assert_eq!(streaming_request_content_type(&config), "application/grpc-web+proto");
}

#[test]
fn test_http_status_to_error_code() {
    assert_eq!(
        http_status_to_error_code(http::StatusCode::BAD_REQUEST.as_u16()),
        ErrorCode::Internal
    );
    assert_eq!(
        http_status_to_error_code(http::StatusCode::UNAUTHORIZED.as_u16()),
        ErrorCode::Unauthenticated
    );
    assert_eq!(
        http_status_to_error_code(http::StatusCode::FORBIDDEN.as_u16()),
        ErrorCode::PermissionDenied
    );
    assert_eq!(
        http_status_to_error_code(http::StatusCode::NOT_FOUND.as_u16()),
        ErrorCode::Unimplemented
    );
    assert_eq!(
        http_status_to_error_code(http::StatusCode::SERVICE_UNAVAILABLE.as_u16()),
        ErrorCode::Unavailable
    );
    assert_eq!(
        http_status_to_error_code(http::StatusCode::INTERNAL_SERVER_ERROR.as_u16()),
        ErrorCode::Unknown
    );
}

#[test]
fn other_statuses_with_a_code_of_their_own() {
    assert_eq!(http_status_to_error_code(408), ErrorCode::DeadlineExceeded);
    assert_eq!(http_status_to_error_code(429), ErrorCode::Unavailable);
    assert_eq!(http_status_to_error_code(502), ErrorCode::Unavailable);
    assert_eq!(http_status_to_error_code(504), ErrorCode::Unavailable);
    assert_eq!(http_status_to_error_code(418), ErrorCode::Unknown);
}

#[test]
fn test_add_unary_request_headers_connect() {
    let config = ClientConfig::new("http://localhost".parse().unwrap());
    let headers = add_unary_request_headers(http::HeaderMap::new(), &config, None, None);
    assert_eq!(headers.get("content-type").unwrap(), "application/proto");
    assert_eq!(headers.get("connect-protocol-version").unwrap(), "1");
    assert!(headers.get("te").is_none());
}

#[test]
fn test_add_unary_request_headers_grpc() {
    let config =
        ClientConfig::new("http://localhost".parse().unwrap()).with_protocol(Protocol::Grpc);
    let headers = add_unary_request_headers(http::HeaderMap::new(), &config, None, None);
    assert_eq!(headers.get("content-type").unwrap(), "application/grpc+proto");
    assert_eq!(headers.get("te").unwrap(), "trailers");
    assert!(headers.get("connect-protocol-version").is_none());
}

#[test]
fn test_add_unary_request_headers_grpc_web() {
    let config =
        ClientConfig::new("http://localhost".parse().unwrap()).with_protocol(Protocol::GrpcWeb);
    let headers = add_unary_request_headers(http::HeaderMap::new(), &config, None, None);
    assert_eq!(headers.get("content-type").unwrap(), "application/grpc-web+proto");
    assert!(headers.get("te").is_none());
    assert!(headers.get("connect-protocol-version").is_none());
}

#[test]
fn test_add_unary_request_headers_with_timeout() {
    let config =
        ClientConfig::new("http://localhost".parse().unwrap()).with_protocol(Protocol::Grpc);
    let headers = add_unary_request_headers(
        http::HeaderMap::new(),
        &config,
        Some(Duration::from_millis(500)),
        None,
    );
    assert_eq!(headers.get("grpc-timeout").unwrap(), "500m");
}

#[test]
fn test_add_streaming_request_headers_grpc() {
    let config =
        ClientConfig::new("http://localhost".parse().unwrap()).with_protocol(Protocol::Grpc);
    let headers = add_streaming_request_headers(http::HeaderMap::new(), &config, None);
    assert_eq!(headers.get("content-type").unwrap(), "application/grpc+proto");
    assert_eq!(headers.get("te").unwrap(), "trailers");
}

fn headers_for(protocol: Protocol, applied_encoding: Option<&str>) -> http::HeaderMap {
    let config = ClientConfig::new("http://localhost".parse().unwrap())
        .with_protocol(protocol)
        .compress_requests("gzip");
    add_unary_request_headers(http::HeaderMap::new(), &config, None, applied_encoding)
}

#[test]
fn connect_unary_no_content_encoding_when_compression_skipped() {
    let headers = headers_for(Protocol::Connect, None);
    assert!(
        !headers.contains_key(http::header::CONTENT_ENCODING),
        "Content-Encoding must not be set when compression policy skipped the body"
    );
}

#[test]
fn connect_unary_content_encoding_when_compressed() {
    let headers = headers_for(Protocol::Connect, Some("gzip"));
    assert_eq!(headers.get(http::header::CONTENT_ENCODING).unwrap(), "gzip");
}

#[test]
fn grpc_unary_encoding_header_independent_of_applied() {
    let headers = headers_for(Protocol::Grpc, None);
    assert_eq!(headers.get("grpc-encoding").unwrap(), "gzip");
}

#[test]
fn streaming_headers_name_the_encodings_of_the_protocol() {
    let config = ClientConfig::new("http://localhost".parse().unwrap()).compress_requests("gzip");
    let headers = add_streaming_request_headers(
        http::HeaderMap::new(),
        &config,
        Some(Duration::from_secs(2)),
    );
    assert_eq!(headers.get("connect-content-encoding").unwrap(), "gzip");
    assert_eq!(headers.get("connect-accept-encoding").unwrap(), "gzip");
    assert_eq!(headers.get("connect-timeout-ms").unwrap(), "2000");
    assert_eq!(headers.len(), 5);

    let config = config
        .with_protocol(Protocol::GrpcWeb)
        .with_compression(CompressionRegistry::new());
    let headers = add_streaming_request_headers(http::HeaderMap::new(), &config, None);
    assert_eq!(headers.get("grpc-encoding").unwrap(), "gzip");
    assert!(headers.get("grpc-accept-encoding").is_none());
    assert_eq!(headers.len(), 2);
}

fn base() -> ClientConfig {
    ClientConfig::new("http://localhost:8080".parse().unwrap())
}

#[test]
fn unary_call_sends_the_message_as_it_is() {
    let call =
        call_unary(&base(), "acme.Greet", "Say", Ok(b"hi".to_vec()), CallOptions::default())
            .unwrap();
    assert_eq!(call.request.method, HttpMethod::Post);
    assert_eq!(call.request.uri.to_string(), "http://localhost:8080/acme.Greet/Say");
    assert_eq!(call.request.body, b"hi");
    assert_eq!(call.request.headers.get("accept-encoding").unwrap(), "gzip");
    assert!(call.request.headers.get("content-encoding").is_none());
}

#[test]
fn unary_call_compresses_large_messages_only() {
    let registry = CompressionRegistry::default();
    let config = base().compress_requests("gzip");
    let large = vec![7u8; 4096];

    let call =
        call_unary(&config, "s", "m", Ok(large.clone()), CallOptions::default()).unwrap();
    assert_eq!(call.request.headers.get("content-encoding").unwrap(), "gzip");
    assert_ne!(call.request.body, large);
    let plain = registry.decompress_with_limit("gzip", call.request.body, 1 << 20).unwrap();
    assert_eq!(plain, large);

    let call =
        call_unary(&config, "s", "m", Ok(b"hi".to_vec()), CallOptions::default()).unwrap();
    assert!(call.request.headers.get("content-encoding").is_none());
    assert_eq!(call.request.body, b"hi");

    let options = CallOptions::default().with_compress(false);
    let call = call_unary(&config, "s", "m", Ok(large.clone()), options).unwrap();
    assert_eq!(call.request.body, large);
}

#[test]
fn grpc_unary_call_frames_the_message() {
    let config = base().with_protocol(Protocol::Grpc);
    let call =
        call_unary(&config, "s", "m", Ok(b"hi".to_vec()), CallOptions::default()).unwrap();
    assert_eq!(call.request.body, vec![0, 0, 0, 0, 2, b'h', b'i']);

    let config = config.compress_requests("gzip");
    let options = CallOptions::default().with_compress(true);
    let call = call_unary(&config, "s", "m", Ok(b"hi".to_vec()), options).unwrap();
    let mut buf = call.request.body;
    let envelope = Envelope::decode_with_limit(&mut buf, 1024).unwrap().unwrap();
    assert!(envelope.is_compressed());
    assert!(buf.is_empty());
    let plain = CompressionRegistry::default()
        .decompress_with_limit("gzip", envelope.data, 1024)
        .unwrap();
    assert_eq!(plain, b"hi");
}

#[test]
fn unary_call_errors_come_in_order() {
    let broken = || Err(ConnectError::internal("no encoding"));
    let e = call_unary(&base(), "a b", "m", broken(), CallOptions::default()).unwrap_err();
    assert!(e.message.as_deref().unwrap().starts_with("invalid URI: "));
    let e = call_unary(&base(), "s", "m", broken(), CallOptions::default()).unwrap_err();
    assert_eq!(e.message.as_deref(), Some("no encoding"));

    let config = base().compress_requests("br");
    let options = CallOptions::default().with_compress(true);
    let e = call_unary(&config, "s", "m", Ok(vec![1]), options.clone()).unwrap_err();
    assert_eq!(e.code, ErrorCode::Unimplemented);
    let config = config.with_protocol(Protocol::Grpc);
    let e = call_unary(&config, "s", "m", Ok(vec![1]), options).unwrap_err();
    assert_eq!(e.code, ErrorCode::Internal);
    assert_eq!(
        e.message.as_deref(),
        Some(
            "envelope encode failed: unimplemented: unsupported compression encoding: br"
        )
    );
}

#[test]
fn call_headers_replace_protocol_headers() {
    let options = CallOptions::default()
        .with_header("content-type", "application/custom")
        .with_header("x-extra", "1");
    let call = call_unary(&base(), "s", "m", Ok(vec![]), options).unwrap();
    let values: Vec<_> = call.request.headers.get_all("content-type").iter().collect();
    assert_eq!(values, vec!["application/custom"]);
    assert_eq!(call.request.headers.get("x-extra").unwrap(), "1");
    assert_eq!(call.request.headers.get("connect-protocol-version").unwrap(), "1");
}

#[test]
fn get_call_puts_the_message_into_the_query() {
    let call = call_unary_get(
        &base(),
        "s",
        "m",
        Ok(b"\xfa\xfb\xfc".to_vec()),
        CallOptions::default().with_timeout(Duration::from_secs(3)),
    )
    .unwrap();
    assert_eq!(call.request.method, HttpMethod::Get);
    assert_eq!(
        call.request.uri.to_string(),
        "http://localhost:8080/s/m?connect=v1&encoding=proto&message=-vv8&base64=1"
    );
    assert!(call.request.body.is_empty());
    assert!(call.request.headers.get("content-type").is_none());
    assert_eq!(call.request.headers.get("connect-timeout-ms").unwrap(), "3000");
    assert_eq!(call.request.headers.get("accept-encoding").unwrap(), "gzip");
}

#[test]
fn get_call_percent_encodes_json() {
    let config = base().json();
    let call = call_unary_get(
        &config,
        "s",
        "m",
        Ok(b"{\"a\": 1}".to_vec()),
        CallOptions::default(),
    )
    .unwrap();
    assert_eq!(
        call.request.uri.to_string(),
        "http://localhost:8080/s/m?connect=v1&encoding=json&message=%7B%22a%22%3A%201%7D"
    );

    let config = config.compress_requests("gzip");
    assert!(build_get_path(&config, "s", "m", b"\x01\x02", true)
        .ends_with("?connect=v1&encoding=json&message=AQI&base64=1&compression=gzip"));
}

#[test]
fn get_call_is_for_connect_only() {
    let config = base().with_protocol(Protocol::GrpcWeb);
    let e =
        call_unary_get(&config, "s", "m", Ok(vec![]), CallOptions::default()).unwrap_err();
    assert_eq!(e.code, ErrorCode::InvalidArgument);
    assert_eq!(
        e.message.as_deref(),
        Some("call_unary_get requires Protocol::Connect (gRPC/gRPC-Web are POST-only)")
    );
    let e =
        call_unary_get(&base(), "a b", "m", Ok(vec![]), CallOptions::default()).unwrap_err();
    assert!(e.message.as_deref().unwrap().starts_with("invalid GET URI: "));
}

#[test]
fn get_base64_encoding_matches_rfc4648_urlsafe_no_pad() {
    let path = build_get_path(&base(), "s", "m", b"\xfa\xfb\xfc", false);
    let encoded = path
        .split("&message=")
        .nth(1)
        .unwrap()
        .split('&')
        .next()
        .unwrap();
    assert!(!encoded.contains('+'), "URL-safe must not contain +");
    assert!(!encoded.contains('/'), "URL-safe must not contain /");
    assert!(!encoded.contains('='), "no-pad must not contain =");

    let decoded = base64::engine::general_purpose::URL_SAFE_NO_PAD.decode(encoded).unwrap();
    assert_eq!(decoded, b"\xfa\xfb\xfc");
}

#[test]
fn base64_of_every_remainder() {
    for message in [&b""[..], &b"a"[..], &b"ab"[..], &b"abc"[..], &b"abcd\xff\xfe"[..]] {
        let path = build_get_path(&base(), "s", "m", message, false);
        let expected = base64::engine::general_purpose::URL_SAFE_NO_PAD.encode(message);
        assert!(path.ends_with(&format!("&message={expected}&base64=1")));
    }
}

#[test]
fn server_stream_call_sends_one_envelope() {
    let call =
        call_server_stream(&base(), "s", "m", Ok(b"hi".to_vec()), CallOptions::default())
            .unwrap();
    assert_eq!(call.request.body, Envelope::data(b"hi".to_vec()).encode());
    assert_eq!(
        call.request.headers.get("content-type").unwrap(),
        "application/connect+proto"
    );

    let config = base().compress_requests("br");
    let options = CallOptions::default().with_compress(true);
    let e = call_server_stream(&config, "s", "m", Ok(vec![1]), options).unwrap_err();
    assert_eq!(e.code, ErrorCode::Unimplemented);
}

#[test]
fn client_stream_call_encodes_each_message() {
    let config = base()
        .compress_requests("gzip")
        .with_compression_policy(CompressionPolicy { enabled: true, min_size: 3 });
    let call = call_client_stream(&config, "s", "m", CallOptions::default()).unwrap();
    assert!(call.request.body.is_empty());
    let small = encode_message(&call.encoder, Ok(b"hi".to_vec())).unwrap();
    assert_eq!(small, Envelope::data(b"hi".to_vec()).encode());
    let large = encode_message(&call.encoder, Ok(b"hello".to_vec())).unwrap();
    assert_eq!(large[0], 1);
    let e = encode_message(&call.encoder, Err(ConnectError::internal("bad"))).unwrap_err();
    assert_eq!(e.message.as_deref(), Some("bad"));
}

#[test]
fn every_request_carries_the_timeout_once() {
    let config = base().with_default_timeout(Duration::from_secs(9));
    let own = CallOptions::default().with_timeout(Duration::from_millis(1500));
    let unary = call_unary(&config, "S", "M", Ok(vec![1]), own.clone()).unwrap();
    let values: Vec<_> = unary.request.headers.get_all("connect-timeout-ms").iter().collect();
    assert_eq!(values, ["1500"]);
    let stream = call_client_stream(&config, "S", "M", CallOptions::default()).unwrap();
    let values: Vec<_> = stream.request.headers.get_all("connect-timeout-ms").iter().collect();
    assert_eq!(values, ["9000"]);
    let get = call_unary_get(&config, "S", "M", Ok(vec![1]), own).unwrap();
    assert_eq!(get.request.headers.get("connect-timeout-ms").unwrap(), "1500");
    let none = call_unary(&base(), "S", "M", Ok(vec![1]), CallOptions::default()).unwrap();
    assert!(none.request.headers.get("connect-timeout-ms").is_none());

    let by_hand = CallOptions::default().with_header("connect-timeout-ms", "7");
    let call = call_unary(&config, "S", "M", Ok(vec![1]), by_hand).unwrap();
    let values: Vec<_> = call.request.headers.get_all("connect-timeout-ms").iter().collect();
    assert_eq!(values, ["7"]);
}

fn many_headers(n: usize) -> http::HeaderMap {
    let mut h = http::HeaderMap::new();
    for i in 0..n {
        let name = http::HeaderName::from_bytes(format!("x-{i}").as_bytes()).unwrap();
        h.append(name, http::HeaderValue::from_static("v"));
    }
    h
}

#[test]
fn headers_of_a_call_are_counted() {
    let options = CallOptions::default().with_header("x-a", "1").with_header("x-a", "2");
    assert!(check_headers(&base(), &options));
    let config = base().with_default_headers(many_headers(6547));
    assert!(check_headers(&config, &options));
    let config = base().with_default_headers(many_headers(6548));
    assert!(!check_headers(&config, &options));
    assert!(connectrpc::headers::check_room(&many_headers(6553)));
    assert!(!connectrpc::headers::check_room(&many_headers(6554)));
}

#[test]
fn get_call_outside_connect_is_refused_before_its_headers_are_looked_at() {
    let config =
        base().with_protocol(Protocol::Grpc).with_default_headers(many_headers(7000));
    let e = call_unary_get(&config, "S", "M", Ok(vec![1]), CallOptions::default()).unwrap_err();
    assert_eq!(e.code, ErrorCode::InvalidArgument);
}

#[test]
fn encoding_of_requests_must_be_a_header_value() {
    let text = "failed to build request: failed to parse header value";
    let config = base().with_protocol(Protocol::Grpc).compress_requests("bad\n");
    let plain = || CallOptions::default().with_compress(false);
    let e = call_unary(&config, "S", "M", Ok(vec![1]), plain()).unwrap_err();
    assert_eq!((e.code, e.message.as_deref()), (ErrorCode::Internal, Some(text)));
    let e = call_server_stream(&config, "S", "M", Ok(vec![1]), plain()).unwrap_err();
    assert_eq!((e.code, e.message.as_deref()), (ErrorCode::Internal, Some(text)));
    let e = call_client_stream(&config, "S", "M", plain()).unwrap_err();
    assert_eq!((e.code, e.message.as_deref()), (ErrorCode::Internal, Some(text)));
    let e = call_bidi_stream(&config, "S", "M", plain()).unwrap_err();
    assert_eq!((e.code, e.message.as_deref()), (ErrorCode::Internal, Some(text)));

    // In the Connect protocol a unary request names only what was applied.
    let connect = base().compress_requests("bad\n");
    assert!(call_unary(&connect, "S", "M", Ok(vec![1]), plain()).is_ok());
}

#[test]
fn other_errors_come_before_a_bad_encoding() {
    let config = base().with_protocol(Protocol::Grpc).compress_requests("bad\n");
    let own = || Err(ConnectError::new(ErrorCode::Aborted, "mine"));
    let e = call_unary(&config, "S", "M", own(), CallOptions::default()).unwrap_err();
    assert_eq!(e.code, ErrorCode::Aborted);
    let e = call_server_stream(&config, "S", "M", own(), CallOptions::default()).unwrap_err();
    assert_eq!(e.code, ErrorCode::Aborted);
    let e = call_server_stream(&config, "S P", "M", own(), CallOptions::default()).unwrap_err();
    assert!(e.message.unwrap().starts_with("invalid URI: "));
    let e = call_client_stream(&config, "S P", "M", CallOptions::default()).unwrap_err();
    assert!(e.message.unwrap().starts_with("invalid URI: "));
    let forced = CallOptions::default().with_compress(true);
    let e = call_server_stream(&config, "S", "M", Ok(vec![1]), forced).unwrap_err();
    assert_eq!(e.code, ErrorCode::Unimplemented);
}

#[test]
fn call_headers_with_quoted_names_are_sent() {
    let name = http::HeaderName::from_static("x\"y");
    let mut given = http::HeaderMap::new();
    given.insert(name.clone(), "1".parse().unwrap());
    let config = ClientConfig::new("http://localhost".parse().unwrap())
        .with_default_headers(given.clone());
    let mut options = CallOptions::default();
    options.headers = given;
    let unary = call_unary(&config, "s.S", "M", Ok(b"m".to_vec()), options.clone()).unwrap();
    assert_eq!(unary.request.headers.get(&name).unwrap(), "1");
    assert_eq!(unary.request.headers.get("content-type").unwrap(), "application/proto");
    let get = call_unary_get(&config, "s.S", "M", Ok(b"m".to_vec()), options.clone()).unwrap();
    assert_eq!(get.request.headers.get(&name).unwrap(), "1");
    let streaming = call_client_stream(&config, "s.S", "M", options.clone()).unwrap();
    assert_eq!(streaming.request.headers.get(&name).unwrap(), "1");
    let server =
        call_server_stream(&config, "s.S", "M", Ok(b"m".to_vec()), options).unwrap();
    assert_eq!(server.request.headers.get(&name).unwrap(), "1");
}
