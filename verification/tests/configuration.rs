use std::time::Duration;

use connectrpc::compression::{CompressionPolicy, CompressionRegistry};
use connectrpc::config::{effective_options, CallOptions, ClientConfig};
use connectrpc::error::ErrorCode;
use connectrpc::headers::{HeaderField, SensitiveValue};
use connectrpc::metadata::{merge_headers, split_trailers};
use connectrpc::protocol::{CodecFormat, Protocol};
use connectrpc::transport::{ClientMode, HttpClientBuilder, ServiceTransport};
use connectrpc::uri::{build_method_uri, Uri};

#[test]
fn test_client_config() {
    let config = ClientConfig::new("http://localhost:8080".parse().unwrap())
        .json()
        .compress_requests("gzip");

    assert_eq!(config.codec_format, CodecFormat::Json);
    assert_eq!(config.request_compression, Some("gzip".to_string()));
}

#[test]
fn test_client_config_proto_only() {
    let config =
        ClientConfig::new("http://localhost:8080".parse().unwrap()).compress_requests("gzip");

    assert_eq!(config.codec_format, CodecFormat::Proto);
    assert_eq!(config.request_compression, Some("gzip".to_string()));
}

#[test]
fn client_config_builders_round_trip_through_accessors() {
    let mut headers = http::HeaderMap::new();
    headers.insert("x-base", "v".parse().unwrap());

    let config = ClientConfig::new("http://example.com:8080".parse().unwrap())
        .with_protocol(Protocol::Grpc)
        .with_codec_format(CodecFormat::Json)
        .with_compression(CompressionRegistry::default())
        .compress_requests("gzip")
        .with_compression_policy(CompressionPolicy::default())
        .with_default_timeout(Duration::from_secs(30))
        .with_default_max_message_size(4096)
        .with_default_headers(headers.clone())
        .with_default_header("x-extra", "1");

    assert_eq!(config.base_uri().to_string(), "http://example.com:8080/");
    assert_eq!(config.protocol(), Protocol::Grpc);
    assert_eq!(config.codec_format(), CodecFormat::Json);
    assert_eq!(config.request_compression(), Some("gzip"));
    assert_eq!(config.default_timeout(), Some(Duration::from_secs(30)));
    assert_eq!(config.default_max_message_size(), Some(4096));
    assert_eq!(config.default_headers().get("x-base").unwrap(), "v");
    assert_eq!(config.default_headers().get("x-extra").unwrap(), "1");
    assert_eq!(*config.compression(), CompressionRegistry::default());
    assert_eq!(config.compression_policy(), CompressionPolicy::default());
}

#[test]
fn client_config_defaults() {
    let config = ClientConfig::new("http://localhost".parse().unwrap());
    assert_eq!(config.protocol(), Protocol::Connect);
    assert_eq!(config.codec_format(), CodecFormat::Proto);
    assert_eq!(config.request_compression(), None);
    assert_eq!(config.default_timeout(), None);
    assert_eq!(config.default_max_message_size(), None);
    assert!(config.default_headers().is_empty());
}

#[test]
fn call_options_builders_round_trip_through_accessors() {
    let options = CallOptions::default()
        .with_timeout(Duration::from_secs(5))
        .with_header("x-request-id", "abc")
        .with_max_message_size(2048)
        .with_compress(true);

    assert_eq!(options.timeout(), Some(Duration::from_secs(5)));
    assert_eq!(options.headers().get("x-request-id").unwrap(), "abc");
    assert_eq!(options.max_message_size(), Some(2048));
    assert_eq!(options.compress(), Some(true));
}

#[test]
fn call_options_defaults() {
    let options = CallOptions::default();
    assert!(options.headers().is_empty());
    assert_eq!(options.timeout(), None);
    assert_eq!(options.max_message_size(), None);
    assert_eq!(options.compress(), None);
}

#[test]
fn test_client_config_protocol() {
    let config =
        ClientConfig::new("http://localhost".parse().unwrap()).with_protocol(Protocol::Grpc);
    assert_eq!(config.protocol, Protocol::Grpc);
}

#[test]
fn test_client_config_default_protocol() {
    let config = ClientConfig::new("http://localhost".parse().unwrap());
    assert_eq!(config.protocol, Protocol::Connect);
}

fn test_config() -> ClientConfig {
    ClientConfig::new("http://localhost:8080".parse().unwrap())
}

#[test]
fn effective_options_uses_config_defaults_when_options_unset() {
    let config = test_config()
        .with_default_timeout(Duration::from_secs(30))
        .with_default_max_message_size(1024)
        .with_default_header("x-trace-id", "cfg-trace");

    let eff = effective_options(&config, CallOptions::default());

    assert_eq!(eff.timeout, Some(Duration::from_secs(30)));
    assert_eq!(eff.max_message_size, Some(1024));
    assert_eq!(eff.headers.get("x-trace-id").unwrap(), "cfg-trace");
}

#[test]
fn effective_options_options_override_config_defaults() {
    let config = test_config()
        .with_default_timeout(Duration::from_secs(30))
        .with_default_max_message_size(1024);

    let options = CallOptions::default()
        .with_timeout(Duration::from_secs(5))
        .with_max_message_size(512);

    let eff = effective_options(&config, options);

    assert_eq!(eff.timeout, Some(Duration::from_secs(5)));
    assert_eq!(eff.max_message_size, Some(512));
}

#[test]
fn effective_options_compress_has_no_config_default() {
    let config = test_config();
    let options = CallOptions::default().with_compress(true);
    let eff = effective_options(&config, options);
    assert_eq!(eff.compress, Some(true));
}

#[test]
fn merge_headers_options_override_config_same_name() {
    let mut cfg = http::HeaderMap::new();
    cfg.insert("x-token", "cfg-token".parse().unwrap());

    let mut opts = http::HeaderMap::new();
    opts.insert("x-token", "opt-token".parse().unwrap());

    let merged = merge_headers(&cfg, opts);
    let vals: Vec<_> = merged.get_all("x-token").iter().collect();
    assert_eq!(vals.len(), 1);
    assert_eq!(vals[0], "opt-token");
}

#[test]
fn merge_headers_config_only_names_preserved() {
    let mut cfg = http::HeaderMap::new();
    cfg.insert("x-cfg-only", "kept".parse().unwrap());

    let mut opts = http::HeaderMap::new();
    opts.insert("x-opt-only", "also-kept".parse().unwrap());

    let merged = merge_headers(&cfg, opts);
    assert_eq!(merged.get("x-cfg-only").unwrap(), "kept");
    assert_eq!(merged.get("x-opt-only").unwrap(), "also-kept");
}

#[test]
fn merge_headers_options_multivalue_replaces_config() {
    let mut cfg = http::HeaderMap::new();
    cfg.append("x-thing", "cfg-a".parse().unwrap());
    cfg.append("x-thing", "cfg-b".parse().unwrap());

    let mut opts = http::HeaderMap::new();
    opts.append("x-thing", "opt-1".parse().unwrap());
    opts.append("x-thing", "opt-2".parse().unwrap());

    let merged = merge_headers(&cfg, opts);
    let vals: Vec<_> =
        merged.get_all("x-thing").iter().map(|v| v.to_str().unwrap()).collect();
    assert_eq!(vals, vec!["opt-1", "opt-2"]);
}

#[test]
fn merge_headers_empty_config_fast_path() {
    let cfg = http::HeaderMap::new();
    let mut opts = http::HeaderMap::new();
    opts.insert("x", "y".parse().unwrap());

    let merged = merge_headers(&cfg, opts);
    assert_eq!(merged.get("x").unwrap(), "y");
}

#[test]
fn merge_headers_empty_options_fast_path() {
    let mut cfg = http::HeaderMap::new();
    cfg.insert("x", "y".parse().unwrap());
    let opts = http::HeaderMap::new();

    let merged = merge_headers(&cfg, opts);
    assert_eq!(merged.get("x").unwrap(), "y");
}

#[test]
fn merging_keeps_the_sensitivity_of_values() {
    let mut cfg = http::HeaderMap::new();
    let mut secret = http::HeaderValue::from_static("token");
    secret.set_sensitive(true);
    cfg.insert("authorization", secret);
    let mut opts = http::HeaderMap::new();
    opts.insert("x", "y".parse().unwrap());

    let merged = merge_headers(&opts, cfg);
    assert!(merged.get("authorization").unwrap().is_sensitive());
    assert!(!merged.get("x").unwrap().is_sensitive());
}

#[test]
fn defaults_filled_in_twice_stay_the_same() {
    let config = test_config()
        .with_default_timeout(Duration::from_secs(30))
        .with_default_header("x-a", "config")
        .with_default_header("x-b", "config");
    let options = CallOptions::default().with_header("x-a", "call");
    let once = effective_options(&config, options);
    let twice = effective_options(&config, once.clone());
    assert_eq!(twice.timeout, once.timeout);
    assert_eq!(twice.headers, once.headers);
    assert_eq!(once.headers.get("x-a").unwrap(), "call");
    assert_eq!(once.headers.get("x-b").unwrap(), "config");
}

#[test]
fn invalid_headers_are_ignored_or_reported() {
    let options = CallOptions::default().with_header("bad name", "v").with_header("ok", "a\nb");
    assert!(options.headers().is_empty());
    let config = test_config().with_default_header("", "v");
    assert!(config.default_headers().is_empty());

    let e = CallOptions::default().try_with_header("bad name", "v").unwrap_err();
    assert_eq!(e.code, ErrorCode::Internal);
    assert_eq!(e.message.as_deref(), Some("invalid header name"));
    let e = CallOptions::default().try_with_header("ok", "a\nb").unwrap_err();
    assert_eq!(e.code, ErrorCode::Internal);
    assert_eq!(e.message.as_deref(), Some("invalid header value"));
    let options = CallOptions::default().try_with_header("X-Upper", "v").unwrap();
    assert_eq!(options.headers().get("x-upper").unwrap(), "v");
}

#[test]
fn several_headers_are_added_in_order() {
    let field = |name: &str, value: &str| HeaderField {
        name: name.to_owned(),
        value: value.as_bytes().to_vec(),
        sensitive: false,
    };
    let options = CallOptions::default()
        .with_header("x-a", "0")
        .with_headers(vec![field("x-a", "1"), field("x-b", "2"), field("x-a", "3")]);
    let values: Vec<_> =
        options.headers().get_all("x-a").iter().map(|v| v.to_str().unwrap()).collect();
    assert_eq!(values, vec!["0", "1", "3"]);
    assert_eq!(options.headers().get("x-b").unwrap(), "2");
}

/// A name that HTTP/2 lets through, though it is no token.
fn quoted(name: &'static str) -> http::HeaderName {
    http::HeaderName::from_lowercase(name.as_bytes()).unwrap()
}

#[test]
fn header_fields_are_made_of_valid_parts_only() {
    let f = HeaderField::new("X-Bytes", &[0xff, b'a'], true).unwrap();
    assert_eq!(f.name, "x-bytes");
    assert_eq!(f.value, vec![0xff, b'a']);
    assert!(f.sensitive);
    assert!(HeaderField::new("bad name", b"v", false).is_none());
    assert!(HeaderField::new("", b"v", false).is_none());
    assert!(HeaderField::new("ok", b"a\nb", false).is_none());
    assert!(HeaderField::new("ok", &[127], false).is_none());
    let options = CallOptions::default().with_headers(vec![f]);
    let value = options.headers().get("x-bytes").unwrap();
    assert_eq!(value.as_bytes(), &[0xff, b'a']);
    assert!(value.is_sensitive());
}

#[test]
fn header_values_may_be_bytes_or_sensitive() {
    let bytes: &[u8] = &[0xe9, 0x09];
    let options = CallOptions::default()
        .with_header("x-bytes", bytes)
        .with_header("x-secret", SensitiveValue(b"s".to_vec()))
        .try_with_header("x-more", SensitiveValue(vec![0x80]))
        .unwrap();
    assert_eq!(options.headers().get("x-bytes").unwrap().as_bytes(), bytes);
    assert!(!options.headers().get("x-bytes").unwrap().is_sensitive());
    assert_eq!(options.headers().get("x-secret").unwrap(), "s");
    assert!(options.headers().get("x-secret").unwrap().is_sensitive());
    assert_eq!(options.headers().get("x-more").unwrap().as_bytes(), &[0x80]);

    let nul: &[u8] = &[0];
    let config = test_config()
        .with_default_header("x-d", SensitiveValue(b"d".to_vec()))
        .with_default_header("x-nul", nul);
    assert!(config.default_headers().get("x-d").unwrap().is_sensitive());
    assert!(config.default_headers().get("x-nul").is_none());
    let e = CallOptions::default().try_with_header("x-nul", nul).unwrap_err();
    assert_eq!(e.message.as_deref(), Some("invalid header value"));
}

#[test]
fn merge_headers_with_quoted_names() {
    let mut cfg = http::HeaderMap::new();
    cfg.insert(quoted("x\"y"), "config".parse().unwrap());
    cfg.insert(quoted("a\"b"), "kept".parse().unwrap());
    let mut opts = http::HeaderMap::new();
    opts.append(quoted("x\"y"), "1".parse().unwrap());
    opts.append(quoted("x\"y"), "2".parse().unwrap());
    let merged = merge_headers(&cfg, opts);
    let values: Vec<_> =
        merged.get_all(quoted("x\"y")).iter().map(|v| v.to_str().unwrap()).collect();
    assert_eq!(values, vec!["1", "2"]);
    assert_eq!(merged.get(quoted("a\"b")).unwrap(), "kept");
    assert_eq!(merged.len(), 3);
}

#[test]
fn merge_headers_with_names_that_no_text_gives() {
    // A long name is put into a map without a look at its characters.
    let odd = "trailer- a name of more than sixty-four bytes with spaces and [brackets] in it";
    let mut opts = http::HeaderMap::new();
    opts.insert(odd, "1".parse().unwrap());
    let name = opts.keys().next().unwrap().clone();
    assert!(http::HeaderName::from_lowercase(name.as_str().as_bytes()).is_err());
    let mut cfg = http::HeaderMap::new();
    cfg.insert(name.clone(), "config".parse().unwrap());
    cfg.insert("x-a", "a".parse().unwrap());
    let merged = merge_headers(&cfg, opts);
    assert_eq!(merged.len(), 2);
    assert_eq!(merged.get(&name).unwrap(), "1");
    let (headers, trailers) = split_trailers(&merged);
    assert_eq!(headers.len(), 1);
    assert!(trailers.is_empty());
}

#[test]
fn trailer_prefix_without_a_header_name_is_dropped() {
    let mut h = http::HeaderMap::new();
    h.insert(quoted("trailer-a\"b"), "dropped".parse().unwrap());
    h.insert(quoted("p\"q"), "kept".parse().unwrap());
    h.insert("trailer-x", "t".parse().unwrap());
    assert!(connectrpc::metadata::check_trailers(&h));
    let (headers, trailers) = split_trailers(&h);
    assert_eq!(headers.len(), 1);
    assert_eq!(headers.get(quoted("p\"q")).unwrap(), "kept");
    assert_eq!(trailers.len(), 1);
    assert_eq!(trailers.get("x").unwrap(), "t");
}

#[test]
fn trailers_are_told_apart_by_their_prefix() {
    let mut h = http::HeaderMap::new();
    h.insert("x-plain", "p".parse().unwrap());
    h.append("trailer-x-meta", "1".parse().unwrap());
    h.append("trailer-x-meta", "2".parse().unwrap());
    h.insert("trailer-", "dropped".parse().unwrap());
    let (headers, trailers) = split_trailers(&h);
    assert_eq!(headers.len(), 1);
    assert_eq!(headers.get("x-plain").unwrap(), "p");
    let values: Vec<_> = trailers.get_all("x-meta").iter().map(|v| v.to_str().unwrap()).collect();
    assert_eq!(values, vec!["1", "2"]);
    assert_eq!(trailers.len(), 2);
}

#[test]
fn compression_policy_overrides() {
    let policy = CompressionPolicy::default();
    assert!(!policy.should_compress(1023));
    assert!(policy.should_compress(1024));
    assert!(policy.with_override(Some(true)).should_compress(0));
    assert!(!policy.with_override(Some(false)).should_compress(1 << 20));
    assert_eq!(policy.with_override(None), policy);
    let small = CompressionPolicy { enabled: true, min_size: 10 };
    assert!(small.should_compress(10));
    assert!(!small.should_compress(9));
}

#[test]
fn method_uri_joins_base_service_and_method() {
    let base: Uri = "http://localhost:8080//".parse().unwrap();
    let uri = build_method_uri(&base, "acme.v1.Greet", "Say").unwrap();
    assert_eq!(uri.to_string(), "http://localhost:8080/acme.v1.Greet/Say");

    let e = build_method_uri(&base, "bad service", "Say").unwrap_err();
    assert_eq!(e.code, ErrorCode::Internal);
    assert!(e.message.as_deref().unwrap().starts_with("invalid URI: "));
    assert!(Uri::parse("http://bad host/").is_err());
}

#[test]
fn http_client_plaintext_rejects_https() {
    let uri: Uri = "https://localhost:8080/foo".parse().unwrap();
    let err = ClientMode::Plaintext.check_uri(&uri).unwrap_err();
    assert_eq!(err.code, ErrorCode::InvalidArgument);
    assert!(err.message.as_deref().unwrap().contains("with_tls"));
}

#[test]
fn http_client_with_tls_rejects_http() {
    let uri: Uri = "http://localhost:8080/foo".parse().unwrap();
    let err = ClientMode::Tls.check_uri(&uri).unwrap_err();
    assert_eq!(err.code, ErrorCode::InvalidArgument);
    assert!(err.message.as_deref().unwrap().contains("plaintext"));
}

#[test]
fn each_client_accepts_its_own_scheme() {
    let http: Uri = "http://localhost:8080/foo".parse().unwrap();
    let https: Uri = "https://localhost:8080/foo".parse().unwrap();
    let path: Uri = "/foo".parse().unwrap();
    assert!(ClientMode::Plaintext.check_uri(&http).is_ok());
    assert!(ClientMode::Tls.check_uri(&https).is_ok());
    assert!(ClientMode::Plaintext.check_uri(&path).is_ok());
    assert!(ClientMode::Tls.check_scheme(None).is_ok());
    assert_eq!(ClientMode::Plaintext.as_str(), "plaintext");
    assert_eq!(ClientMode::Tls.as_str(), "tls");
}

#[test]
fn service_transport_hands_its_service_out() {
    let mut transport = ServiceTransport::new(7);
    assert_eq!(*transport.inner(), 7);
    *transport.inner_mut() = 8;
    assert_eq!(transport.clone().into_inner(), 8);
    assert_eq!(transport.into_inner(), 8);
}

#[test]
fn http_client_builder_keeps_its_bound() {
    let builder = HttpClientBuilder::default();
    assert_eq!(builder.connect_bound(), None);
    let builder = builder.connect_timeout(Duration::from_millis(100));
    assert_eq!(builder.connect_bound(), Some(Duration::from_millis(100)));
}
