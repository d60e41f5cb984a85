use base64::Engine;

use connectrpc::compression::CompressionRegistry;
use connectrpc::encoding::{decode_standard, grpc_percent_decode};
use connectrpc::envelope::grpc_web_trailer_frame_end;
use connectrpc::error::{map_response_decompression_error, ConnectError, ErrorCode};
use connectrpc::grpc::{
    parse_grpc_error_from_trailers, parse_grpc_web_trailer_frame_with_compression,
};
use connectrpc::grpc_status::decode_details;
use connectrpc::metadata::check_trailers;

#[test]
fn test_grpc_percent_decode_passthrough() {
    assert_eq!(grpc_percent_decode("hello world"), "hello world");
}

#[test]
fn test_grpc_percent_decode_percent() {
    assert_eq!(grpc_percent_decode("100%25"), "100%");
}

#[test]
fn test_grpc_percent_decode_newlines() {
    assert_eq!(grpc_percent_decode("a%0Ab"), "a\nb");
    assert_eq!(grpc_percent_decode("a%0D%0Ab"), "a\r\nb");
}

#[test]
fn test_grpc_percent_decode_utf8_multibyte() {
    assert_eq!(grpc_percent_decode("caf%C3%A9"), "café");
    assert_eq!(grpc_percent_decode("%E2%98%BA"), "☺");
    assert_eq!(grpc_percent_decode("%F0%9F%98%88"), "😈");
}

#[test]
fn test_grpc_percent_decode_partial_percent() {
    assert_eq!(grpc_percent_decode("100%"), "100%");
    assert_eq!(grpc_percent_decode("a%2"), "a%2");
}

#[test]
fn test_grpc_percent_decode_invalid_hex() {
    assert_eq!(grpc_percent_decode("a%ZZb"), "a%ZZb");
}

#[test]
fn percent_decoding_replaces_invalid_utf8() {
    assert_eq!(grpc_percent_decode("a%FFb"), "a\u{FFFD}b");
}

#[test]
fn test_parse_grpc_error_ok_returns_none() {
    let mut trailers = http::HeaderMap::new();
    trailers.insert("grpc-status", http::HeaderValue::from_static("0"));
    assert!(parse_grpc_error_from_trailers(&trailers).is_none());
}

#[test]
fn test_parse_grpc_error_missing_status_returns_none() {
    let trailers = http::HeaderMap::new();
    assert!(parse_grpc_error_from_trailers(&trailers).is_none());
}

#[test]
fn test_parse_grpc_error_with_code_and_message() {
    let mut trailers = http::HeaderMap::new();
    trailers.insert("grpc-status", http::HeaderValue::from_static("5"));
    trailers.insert("grpc-message", http::HeaderValue::from_static("not%20found"));
    let err = parse_grpc_error_from_trailers(&trailers).unwrap();
    assert_eq!(err.code, ErrorCode::NotFound);
    assert_eq!(err.message.as_deref(), Some("not found"));
}

#[test]
fn test_parse_grpc_error_unknown_code() {
    let mut trailers = http::HeaderMap::new();
    trailers.insert("grpc-status", http::HeaderValue::from_static("99"));
    let err = parse_grpc_error_from_trailers(&trailers).unwrap();
    assert_eq!(err.code, ErrorCode::Unknown);
}

#[test]
fn test_parse_grpc_error_custom_trailers() {
    let mut trailers = http::HeaderMap::new();
    trailers.insert("grpc-status", http::HeaderValue::from_static("13"));
    trailers.insert("x-custom", http::HeaderValue::from_static("value"));
    let err = parse_grpc_error_from_trailers(&trailers).unwrap();
    assert_eq!(err.code, ErrorCode::Internal);
    assert_eq!(err.trailers().get("x-custom").unwrap().to_str().unwrap(), "value");
}

#[test]
fn grpc_error_keeps_metadata_and_drops_the_status() {
    let mut trailers = http::HeaderMap::new();
    trailers.insert("grpc-status", http::HeaderValue::from_static("+7"));
    trailers.insert("grpc-message", http::HeaderValue::from_static("no"));
    trailers.append("x-a", http::HeaderValue::from_static("1"));
    trailers.append("x-a", http::HeaderValue::from_static("2"));
    let err = parse_grpc_error_from_trailers(&trailers).unwrap();
    assert_eq!(err.code, ErrorCode::PermissionDenied);
    assert_eq!(err.trailers().len(), 2);
    let values: Vec<_> =
        err.trailers().get_all("x-a").iter().map(|v| v.to_str().unwrap()).collect();
    assert_eq!(values, vec!["1", "2"]);
}

#[test]
fn malformed_status_is_shown_in_the_error() {
    let mut trailers = http::HeaderMap::new();
    trailers.insert("grpc-status", http::HeaderValue::from_static("1\"2"));
    let err = parse_grpc_error_from_trailers(&trailers).unwrap();
    assert_eq!(err.code, ErrorCode::Unknown);
    assert_eq!(
        err.message.as_deref(),
        Some("protocol error: malformed grpc-status: \"1\\\"2\"")
    );

    trailers.insert("grpc-status", http::HeaderValue::from_bytes(b"\xff\t").unwrap());
    let err = parse_grpc_error_from_trailers(&trailers).unwrap();
    assert_eq!(
        err.message.as_deref(),
        Some("protocol error: malformed grpc-status: \"\\xff\t\"")
    );

    let mut secret = http::HeaderValue::from_static("4294967296");
    secret.set_sensitive(true);
    trailers.insert("grpc-status", secret);
    let err = parse_grpc_error_from_trailers(&trailers).unwrap();
    assert_eq!(
        err.message.as_deref(),
        Some("protocol error: malformed grpc-status: Sensitive")
    );
}

/// A status with one detail: type URL `type.googleapis.com/acme.Info`, payload
/// `\x01\x02`.
fn status_bytes() -> Vec<u8> {
    let url = b"type.googleapis.com/acme.Info";
    let mut any = vec![0x0a, url.len() as u8];
    any.extend_from_slice(url);
    any.extend_from_slice(&[0x12, 2, 1, 2]);
    let mut status = vec![0x08, 5, 0x12, 2, b'n', b'o', 0x1a, any.len() as u8];
    status.extend_from_slice(&any);
    status
}

#[test]
fn status_details_are_read() {
    let details = decode_details(&status_bytes());
    assert_eq!(details.len(), 1);
    assert_eq!(details[0].type_url, "acme.Info");
    assert_eq!(details[0].value.as_deref(), Some("AQI"));

    for encoded in [
        base64::engine::general_purpose::STANDARD.encode(status_bytes()),
        base64::engine::general_purpose::STANDARD_NO_PAD.encode(status_bytes()),
    ] {
        let mut trailers = http::HeaderMap::new();
        trailers.insert("grpc-status", http::HeaderValue::from_static("5"));
        trailers.insert("grpc-status-details-bin", encoded.parse().unwrap());
        let err = parse_grpc_error_from_trailers(&trailers).unwrap();
        assert_eq!(err.details.len(), 1);
        assert_eq!(err.details[0].type_url, "acme.Info");
        assert!(err.trailers().is_empty());
    }
}

#[test]
fn malformed_status_details_are_dropped() {
    let mut cut = status_bytes();
    cut.pop();
    assert!(decode_details(&cut).is_empty());
    assert!(decode_details(&[0x1a, 2, 0x0a, 9]).is_empty());
    assert!(decode_details(&[]).is_empty());
    let mut trailers = http::HeaderMap::new();
    trailers.insert("grpc-status", http::HeaderValue::from_static("5"));
    trailers.insert("grpc-status-details-bin", http::HeaderValue::from_static("!!"));
    let err = parse_grpc_error_from_trailers(&trailers).unwrap();
    assert!(err.details.is_empty());
}

fn frame(flags: u8, payload: &[u8]) -> Vec<u8> {
    let mut frame = Vec::with_capacity(5 + payload.len());
    frame.push(flags);
    frame.extend_from_slice(&(payload.len() as u32).to_be_bytes());
    frame.extend_from_slice(payload);
    frame
}

#[test]
fn test_parse_grpc_web_trailer_uncompressed() {
    let frame = frame(0x80, b"grpc-status: 0\r\n");
    let headers = parse_grpc_web_trailer_frame_with_compression(&frame, None).unwrap();
    assert_eq!(headers.get("grpc-status").unwrap().to_str().unwrap(), "0");
}

#[test]
fn test_parse_grpc_web_trailer_with_error() {
    let frame = frame(0x80, b"grpc-status: 13\r\ngrpc-message: internal error\r\n");
    let headers = parse_grpc_web_trailer_frame_with_compression(&frame, None).unwrap();
    assert_eq!(headers.get("grpc-status").unwrap().to_str().unwrap(), "13");
    assert_eq!(headers.get("grpc-message").unwrap().to_str().unwrap(), "internal error");
}

#[test]
fn test_parse_grpc_web_trailer_truncated() {
    assert!(parse_grpc_web_trailer_frame_with_compression(&[0x80, 0, 0], None).is_none());
}

#[test]
fn test_parse_grpc_web_trailer_not_trailer() {
    let frame = [0x00, 0, 0, 0, 5, b'h', b'e', b'l', b'l', b'o'];
    assert!(parse_grpc_web_trailer_frame_with_compression(&frame, None).is_none());
}

#[test]
fn test_parse_grpc_web_trailer_compressed_no_registry() {
    let frame = frame(0x81, b"grpc-status: 0\r\n");
    assert!(parse_grpc_web_trailer_frame_with_compression(&frame, None).is_none());
}

#[test]
fn test_parse_grpc_web_trailer_newline_only() {
    let frame = frame(0x80, b"grpc-status: 0\n");
    let headers = parse_grpc_web_trailer_frame_with_compression(&frame, None).unwrap();
    assert_eq!(headers.get("grpc-status").unwrap().to_str().unwrap(), "0");
}

#[test]
fn compressed_trailer_frame_is_decompressed() {
    let registry = CompressionRegistry::default();
    let packed = registry.compress("gzip", b"grpc-status:7\r\n").unwrap();
    let frame = frame(0x81, &packed);
    let headers =
        parse_grpc_web_trailer_frame_with_compression(&frame, Some((&registry, "gzip"))).unwrap();
    assert_eq!(headers.get("grpc-status").unwrap(), "7");
    assert!(
        parse_grpc_web_trailer_frame_with_compression(&frame, Some((&registry, "br"))).is_none()
    );
}

#[test]
fn odd_trailer_lines_are_passed_over() {
    let frame = frame(
        0x80,
        b"\r\n\r\nno colon\n: no name\nbad name: x\n X-A :\t 1:2 \xc2\xa0\r\r\nx-a:3\nx-b:\n",
    );
    let headers = parse_grpc_web_trailer_frame_with_compression(&frame, None).unwrap();
    let values: Vec<_> = headers.get_all("x-a").iter().map(|v| v.to_str().unwrap()).collect();
    assert_eq!(values, vec!["1:2", "3"]);
    assert_eq!(headers.get("x-b").unwrap(), "");
    assert_eq!(headers.len(), 3);
}

#[test]
fn unusable_trailer_frames() {
    assert!(parse_grpc_web_trailer_frame_with_compression(&frame(0x80, b"\xff"), None).is_none());
    let mut cut = frame(0x80, b"grpc-status: 0\r\n");
    cut.pop();
    assert!(parse_grpc_web_trailer_frame_with_compression(&cut, None).is_none());
    let large = frame(0x80, &vec![b'a'; 1_048_577]);
    assert!(parse_grpc_web_trailer_frame_with_compression(&large, None).is_none());
}

#[test]
fn trailer_frame_end_is_found_after_whole_frames() {
    let mut data = frame(0, b"message");
    assert_eq!(grpc_web_trailer_frame_end(&data), None);
    let trailers = frame(0x80, b"grpc-status: 0\r\n");
    data.extend_from_slice(&trailers[..trailers.len() - 1]);
    assert_eq!(grpc_web_trailer_frame_end(&data), None);
    data.push(trailers[trailers.len() - 1]);
    let end = data.len();
    assert_eq!(grpc_web_trailer_frame_end(&data), Some(end));
    data.extend_from_slice(b"more");
    assert_eq!(grpc_web_trailer_frame_end(&data), Some(end));
    assert_eq!(grpc_web_trailer_frame_end(&[]), None);
}

#[test]
fn response_decompression_error_remap() {
    let e = map_response_decompression_error(ConnectError::invalid_argument("corrupt"));
    assert_eq!(e.code, ErrorCode::DataLoss);
    let e = map_response_decompression_error(ConnectError::unimplemented("unknown encoding"));
    assert_eq!(e.code, ErrorCode::Internal);
    let e = map_response_decompression_error(ConnectError::resource_exhausted("too big"));
    assert_eq!(e.code, ErrorCode::ResourceExhausted);
}

#[test]
fn remapping_keeps_the_message() {
    let e = map_response_decompression_error(ConnectError::invalid_argument("corrupt"));
    assert_eq!(e.message.as_deref(), Some("corrupt"));
    assert_eq!(e.to_string(), "data_loss: corrupt");
}

#[test]
fn codes_have_names_and_numbers() {
    for n in 1..=16u32 {
        let code = ErrorCode::from_grpc_code(n).unwrap();
        assert_eq!(ErrorCode::parse(code.as_str()), Some(code));
    }
    assert_eq!(ErrorCode::from_grpc_code(0), None);
    assert_eq!(ErrorCode::from_grpc_code(17), None);
    assert_eq!(ErrorCode::parse("Internal"), None);
    assert_eq!(ErrorCode::parse("out_of_range"), Some(ErrorCode::OutOfRange));
}

#[test]
fn decompression_inverts_compression() {
    let registry = CompressionRegistry::default();
    let data = vec![3u8; 1000];
    let packed = registry.compress("gzip", &data).unwrap();
    assert_eq!(registry.decompress_with_limit("gzip", packed.clone(), 1000).unwrap(), data);
    let e = registry.decompress_with_limit("gzip", packed.clone(), 999).unwrap_err();
    assert_eq!(e.code, ErrorCode::ResourceExhausted);
    assert_eq!(registry.compress("identity", &data).unwrap(), data);
    let e = registry.decompress_with_limit("identity", data.clone(), 999).unwrap_err();
    assert_eq!(e.code, ErrorCode::ResourceExhausted);
    assert_eq!(e.message.as_deref(), Some("message size 1000 exceeds limit 999"));
    let e = registry.decompress_with_limit("gzip", b"not gzip".to_vec(), 999).unwrap_err();
    assert_eq!(e.code, ErrorCode::InvalidArgument);
    let e = CompressionRegistry::new().decompress_with_limit("gzip", packed, 999).unwrap_err();
    assert_eq!(e.code, ErrorCode::Unimplemented);
    assert!(registry.supports("gzip"));
    assert!(!registry.supports("identity"));
    assert_eq!(CompressionRegistry::new().accept_encoding_header(), "");
}

#[test]
fn standard_base64_is_read_in_its_canonical_forms_only() {
    for (text, bytes) in [
        ("", &b""[..]),
        ("Zg==", b"f"),
        ("Zg", b"f"),
        ("Zm8=", b"fo"),
        ("Zm8", b"fo"),
        ("Zm9v", b"foo"),
        ("+/8=", b"\xfb\xff"),
    ] {
        assert_eq!(decode_standard(text).as_deref(), Some(bytes), "{text}");
    }
    for text in ["Zg=", "Zh==", "Zh", "Zm9", "Z", "=", "====", "Zm9v====", "-_8=", "Zg== ", "Zg\u{e9}"] {
        assert!(decode_standard(text).is_none(), "{text}");
    }
}

#[test]
fn only_trailers_are_counted() {
    let mut h = http::HeaderMap::new();
    for i in 0..7000 {
        let name = http::HeaderName::from_bytes(format!("x-{i}").as_bytes()).unwrap();
        h.append(name, http::HeaderValue::from_static("v"));
    }
    h.append("trailer-", http::HeaderValue::from_static("v"));
    assert!(check_trailers(&h));
    let mut h = http::HeaderMap::new();
    for i in 0..6553 {
        let name = http::HeaderName::from_bytes(format!("trailer-{i}").as_bytes()).unwrap();
        h.append(name, http::HeaderValue::from_static("v"));
    }
    assert!(check_trailers(&h));
    h.append("trailer-x", http::HeaderValue::from_static("v"));
    assert!(!check_trailers(&h));
}
