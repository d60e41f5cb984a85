//! The protocol headers of the HTTP requests of calls.

use std::time::Duration;
use vstd::prelude::*;
use crate::compression::CompressionRegistry;
use crate::config::ClientConfig;
use crate::config;
use crate::headers::HeaderField;
use crate::headers;
use crate::metadata;
use crate::protocol::{CodecFormat, Protocol};
use crate::text;
use crate::timeout;

verus! {

/// The content type of a unary request.
pub open spec fn unary_content_type(config: config::ConfigView) -> Seq<char> {
    config.protocol.content_type_text(config.codec_format, false)
}

/// The content type of a streaming request.
pub open spec fn streaming_content_type(config: config::ConfigView) -> Seq<char> {
    config.protocol.content_type_text(config.codec_format, true)
}

/// The content type of a unary request.
pub fn unary_request_content_type(config: &ClientConfig) -> (r: &'static str)
    ensures
        r@ == unary_content_type(config@),
{
    match config.protocol {
        Protocol::Connect => config.codec_format.content_type(),
        Protocol::Grpc | Protocol::GrpcWeb => config.protocol.response_content_type(
            config.codec_format,
            false,
        ),
    }
}

/// The content type of a streaming request.
pub fn streaming_request_content_type(config: &ClientConfig) -> (r: &'static str)
    ensures
        r@ == streaming_content_type(config@),
{
    config.protocol.response_content_type(config.codec_format, true)
}

/// A header with a text for its value.
pub open spec fn text_field(name: Seq<char>, value: Seq<char>) -> (Seq<char>, (Seq<u8>, bool)) {
    (name, (vstd::utf8::encode_utf8(value), false))
}

/// A header that is there only if there is a value for it.
pub open spec fn optional_field(name: Seq<char>, value: Option<Seq<char>>) -> Seq<
    (Seq<char>, (Seq<u8>, bool)),
> {
    match value {
        Some(v) => seq![text_field(name, v)],
        None => Seq::empty(),
    }
}

/// The advertised encodings, if there are any.
pub open spec fn advertised(registry: CompressionRegistry) -> Option<Seq<char>> {
    if registry.advertised().len() > 0 {
        Some(registry.advertised())
    } else {
        None
    }
}

/// The text of a timeout, if there is one.
pub open spec fn timeout_value(t: Option<Duration>, protocol: Protocol) -> Option<Seq<char>> {
    match t {
        Some(d) => Some(timeout::timeout_text(timeout::duration_nanos(d) as nat, protocol)),
        None => None,
    }
}

/// The headers of a unary request. In the Connect protocol the encoding is
/// named only when it was applied; in gRPC and gRPC-Web it is declared whether
/// or not this message uses it, since the envelope says so.
pub open spec fn unary_fields(
    config: config::ConfigView,
    timeout: Option<Duration>,
    applied: Option<Seq<char>>,
) -> Seq<(Seq<char>, (Seq<u8>, bool))> {
    seq![text_field("content-type"@, unary_content_type(config))] + (match config.protocol {
        Protocol::Connect => seq![text_field("connect-protocol-version"@, "1"@)] + optional_field(
            "content-encoding"@,
            applied,
        ) + optional_field("accept-encoding"@, advertised(config.compression)),
        Protocol::Grpc => seq![text_field("te"@, "trailers"@)] + optional_field(
            "grpc-encoding"@,
            config.request_compression,
        ) + optional_field("grpc-accept-encoding"@, advertised(config.compression)),
        Protocol::GrpcWeb => optional_field("grpc-encoding"@, config.request_compression)
            + optional_field("grpc-accept-encoding"@, advertised(config.compression)),
    }) + optional_field(
        config.protocol.timeout_name(),
        timeout_value(timeout, config.protocol),
    )
}

/// The headers of a streaming request.
pub open spec fn streaming_fields(
    config: config::ConfigView,
    timeout: Option<Duration>,
) -> Seq<(Seq<char>, (Seq<u8>, bool))> {
    seq![text_field("content-type"@, streaming_content_type(config))] + (match config.protocol {
        Protocol::Connect => seq![text_field("connect-protocol-version"@, "1"@)],
        Protocol::Grpc => seq![text_field("te"@, "trailers"@)],
        Protocol::GrpcWeb => Seq::empty(),
    }) + optional_field(config.protocol.content_encoding_name(), config.request_compression)
        + optional_field(config.protocol.accept_encoding_name(), advertised(config.compression))
        + optional_field(
        config.protocol.timeout_name(),
        timeout_value(timeout, config.protocol),
    )
}

/// The headers of a GET request.
pub open spec fn get_fields(config: config::ConfigView, timeout: Option<Duration>) -> Seq<
    (Seq<char>, (Seq<u8>, bool)),
> {
    optional_field("connect-timeout-ms"@, timeout_value(timeout, Protocol::Connect))
        + optional_field("accept-encoding"@, advertised(config.compression))
}

/// Whether a text can be the value of a header.
pub open spec fn is_value_text(s: Seq<char>) -> bool {
    headers::is_header_value(vstd::utf8::encode_utf8(s))
}

/// Whether an optional text, where there is one, can be the value of a header.
pub open spec fn is_optional_value(s: Option<Seq<char>>) -> bool {
    s is Some ==> is_value_text(s->Some_0)
}

/// Visible ASCII text can be the value of a header.
proof fn visible_is_value(s: Seq<char>)
    requires
        forall|i: int| 0 <= i < s.len() ==> ' ' <= #[trigger] s[i] <= '~',
    ensures
        is_value_text(s),
{
    assert(vstd::utf8::is_ascii_chars(s));
    vstd::utf8::is_ascii_chars_encode_utf8(s);
}

/// The fixed texts of the protocols can be values of headers.
proof fn fixed_texts_are_values()
    ensures
        is_value_text("1"@),
        is_value_text("trailers"@),
        is_value_text("gzip"@),
        is_value_text("identity"@),
{
    reveal_strlit("1");
    reveal_strlit("trailers");
    reveal_strlit("gzip");
    reveal_strlit("identity");
    visible_is_value("1"@);
    visible_is_value("trailers"@);
    visible_is_value("gzip"@);
    visible_is_value("identity"@);
}

/// The encodings that a registry can know can be values of headers.
pub proof fn known_encodings_are_values()
    ensures
        is_value_text("gzip"@),
        is_value_text("identity"@),
{
    fixed_texts_are_values();
}

/// Content types can be values of headers.
proof fn content_types_are_values(protocol: Protocol, format: CodecFormat, streaming: bool)
    ensures
        is_value_text(protocol.content_type_text(format, streaming)),
{
    reveal_strlit("application/connect+proto");
    reveal_strlit("application/proto");
    reveal_strlit("application/connect+json");
    reveal_strlit("application/json");
    reveal_strlit("application/grpc+proto");
    reveal_strlit("application/grpc+json");
    reveal_strlit("application/grpc-web+proto");
    reveal_strlit("application/grpc-web+json");
    visible_is_value(protocol.content_type_text(format, streaming));
}

/// Decimal numbers are made of digits.
proof fn decimal_is_digits(n: nat)
    ensures
        text::all_digits(text::decimal(n)),
    decreases n,
{
    if n >= 10 {
        decimal_is_digits(n / 10);
    }
}

/// Timeouts can be values of headers.
proof fn timeouts_are_values(nanos: nat, protocol: Protocol)
    ensures
        is_value_text(timeout::timeout_text(nanos, protocol)),
{
    decimal_is_digits(timeout::connect_timeout_millis(nanos));
    decimal_is_digits(timeout::grpc_timeout(nanos).count);
    timeout::grpc_timeout_is_faithful(nanos);
    visible_is_value(timeout::timeout_text(nanos, protocol));
}

/// Adds a header with a text for its value to a list.
fn push_text(fields: &mut Vec<HeaderField>, name: &str, value: &str)
    requires
        headers::is_canonical_name(name@),
        is_value_text(value@),
        forall|i: int| 0 <= i < old(fields)@.len() ==> (#[trigger] old(fields)@[i]).wf(),
    ensures
        headers::field_views(final(fields)@) == headers::field_views(old(fields)@).push(
            text_field(name@, value@),
        ),
        forall|i: int| 0 <= i < final(fields)@.len() ==> (#[trigger] final(fields)@[i]).wf(),
{
    let ghost before = fields@;
    proof {
        headers::canonical_names_are_http2_names(name@);
    }
    let f = HeaderField {
        name: name.to_owned(),
        value: vstd::slice::slice_to_vec(value.as_bytes()),
        sensitive: false,
    };
    fields.push(f);
    assert(headers::field_views(fields@) =~= headers::field_views(before).push(f@));
}

/// Adds the header with the advertised encodings, if there are any.
fn push_advertised(fields: &mut Vec<HeaderField>, name: &str, registry: &CompressionRegistry)
    requires
        headers::is_canonical_name(name@),
        forall|i: int| 0 <= i < old(fields)@.len() ==> (#[trigger] old(fields)@[i]).wf(),
    ensures
        headers::field_views(final(fields)@) == headers::field_views(old(fields)@)
            + optional_field(name@, advertised(*registry)),
        forall|i: int| 0 <= i < final(fields)@.len() ==> (#[trigger] final(fields)@[i]).wf(),
{
    let accept = registry.accept_encoding_header();
    proof {
        fixed_texts_are_values();
        reveal_strlit("gzip");
    }
    let ghost before = headers::field_views(fields@);
    if accept.len() > 0 {
        proof {
            if registry.advertised().len() == 0 {
                vstd::utf8::is_ascii_chars_encode_utf8(accept@);
            }
        }
        push_text(fields, name, accept);
        assert(headers::field_views(fields@) =~= before + optional_field(
            name@,
            advertised(*registry),
        ));
    } else {
        proof {
            vstd::utf8::is_ascii_chars_encode_utf8(accept@);
        }
        assert(headers::field_views(fields@) =~= before + optional_field(
            name@,
            advertised(*registry),
        ));
    }
}

/// Adds a header if there is a value for it.
fn push_optional(fields: &mut Vec<HeaderField>, name: &str, value: Option<&str>)
    requires
        headers::is_canonical_name(name@),
        value is Some ==> is_value_text(value->Some_0@),
        forall|i: int| 0 <= i < old(fields)@.len() ==> (#[trigger] old(fields)@[i]).wf(),
    ensures
        headers::field_views(final(fields)@) == headers::field_views(old(fields)@)
            + optional_field(
            name@,
            match value {
                Some(v) => Some(v@),
                None => None,
            },
        ),
        forall|i: int| 0 <= i < final(fields)@.len() ==> (#[trigger] final(fields)@[i]).wf(),
{
    let ghost before = headers::field_views(fields@);
    match value {
        Some(v) => {
            push_text(fields, name, v);
            assert(before.push(text_field(name@, v@)) =~= before + seq![text_field(name@, v@)]);
        },
        None => {
            assert(before + Seq::<(Seq<char>, (Seq<u8>, bool))>::empty() =~= before);
        },
    }
}

/// Adds the timeout header, if there is a timeout.
fn push_timeout(fields: &mut Vec<HeaderField>, t: Option<Duration>, protocol: Protocol)
    requires
        forall|i: int| 0 <= i < old(fields)@.len() ==> (#[trigger] old(fields)@[i]).wf(),
    ensures
        headers::field_views(final(fields)@) == headers::field_views(old(fields)@)
            + optional_field(protocol.timeout_name(), timeout_value(t, protocol)),
        forall|i: int| 0 <= i < final(fields)@.len() ==> (#[trigger] final(fields)@[i]).wf(),
{
    proof {
        metadata::protocol_names_are_canonical(protocol.timeout_name());
    }
    match t {
        Some(d) => {
            proof {
                timeouts_are_values(timeout::duration_nanos(d) as nat, protocol);
            }
            let s = timeout::format_timeout(d, protocol);
            push_optional(fields, protocol.timeout_header(), Some(s.as_str()));
        },
        None => {
            push_optional(fields, protocol.timeout_header(), None);
        },
    }
}

/// Adds the headers of a unary request to some headers.
pub fn add_unary_request_headers(
    headers: http::HeaderMap,
    config: &ClientConfig,
    timeout: Option<Duration>,
    applied_content_encoding: Option<&str>,
) -> (r: http::HeaderMap)
    requires
        config@.protocol == Protocol::Connect ==> (applied_content_encoding is Some
            ==> is_value_text(applied_content_encoding->Some_0@)),
        config@.protocol != Protocol::Connect ==> is_optional_value(config@.request_compression),
        headers::has_room(
            headers::with_fields(
                headers::header_contents(headers),
                unary_fields(
                    config@,
                    timeout,
                    match applied_content_encoding {
                        Some(e) => Some(e@),
                        None => None,
                    },
                ),
            ),
        ),
    ensures
        headers::header_contents(r) == headers::with_fields(
            headers::header_contents(headers),
            unary_fields(
                config@,
                timeout,
                match applied_content_encoding {
                    Some(e) => Some(e@),
                    None => None,
                },
            ),
        ),
{
    let mut headers = headers;
    let mut fields: Vec<HeaderField> = Vec::new();
    proof {
        metadata::protocol_names_are_canonical("content-type"@);
        metadata::protocol_names_are_canonical("connect-protocol-version"@);
        metadata::protocol_names_are_canonical("content-encoding"@);
        metadata::protocol_names_are_canonical("accept-encoding"@);
        metadata::protocol_names_are_canonical("te"@);
        metadata::protocol_names_are_canonical("grpc-encoding"@);
        metadata::protocol_names_are_canonical("grpc-accept-encoding"@);
        fixed_texts_are_values();
        content_types_are_values(config@.protocol, config@.codec_format, false);
        assert(headers::field_views(fields@) =~= Seq::empty());
    }
    push_text(&mut fields, "content-type", unary_request_content_type(config));
    match config.protocol {
        Protocol::Connect => {
            push_text(&mut fields, "connect-protocol-version", "1");
            push_optional(&mut fields, "content-encoding", applied_content_encoding);
            push_advertised(&mut fields, "accept-encoding", &config.compression);
        },
        Protocol::Grpc => {
            push_text(&mut fields, "te", "trailers");
            push_optional(&mut fields, "grpc-encoding", config.request_compression());
            push_advertised(&mut fields, "grpc-accept-encoding", &config.compression);
        },
        Protocol::GrpcWeb => {
            push_optional(&mut fields, "grpc-encoding", config.request_compression());
            push_advertised(&mut fields, "grpc-accept-encoding", &config.compression);
        },
    }
    push_timeout(&mut fields, timeout, config.protocol);
    assert(headers::field_views(fields@) =~= unary_fields(
        config@,
        timeout,
        match applied_content_encoding {
            Some(e) => Some(e@),
            None => None,
        },
    ));
    metadata::append_all(&mut headers, &fields);
    headers
}

/// Adds the headers of a streaming request to some headers.
pub fn add_streaming_request_headers(
    headers: http::HeaderMap,
    config: &ClientConfig,
    timeout: Option<Duration>,
) -> (r: http::HeaderMap)
    requires
        is_optional_value(config@.request_compression),
        headers::has_room(
            headers::with_fields(
                headers::header_contents(headers),
                streaming_fields(config@, timeout),
            ),
        ),
    ensures
        headers::header_contents(r) == headers::with_fields(
            headers::header_contents(headers),
            streaming_fields(config@, timeout),
        ),
{
    let mut headers = headers;
    let mut fields: Vec<HeaderField> = Vec::new();
    proof {
        metadata::protocol_names_are_canonical("content-type"@);
        metadata::protocol_names_are_canonical("connect-protocol-version"@);
        metadata::protocol_names_are_canonical("te"@);
        metadata::protocol_names_are_canonical(config@.protocol.content_encoding_name());
        metadata::protocol_names_are_canonical(config@.protocol.accept_encoding_name());
        fixed_texts_are_values();
        content_types_are_values(config@.protocol, config@.codec_format, true);
        assert(headers::field_views(fields@) =~= Seq::empty());
    }
    push_text(&mut fields, "content-type", streaming_request_content_type(config));
    match config.protocol {
        Protocol::Connect => {
            push_text(&mut fields, "connect-protocol-version", "1");
        },
        Protocol::Grpc => {
            push_text(&mut fields, "te", "trailers");
        },
        Protocol::GrpcWeb => {},
    }
    push_optional(
        &mut fields,
        config.protocol.content_encoding_header(),
        config.request_compression(),
    );
    push_advertised(&mut fields, config.protocol.accept_encoding_header(), &config.compression);
    push_timeout(&mut fields, timeout, config.protocol);
    assert(headers::field_views(fields@) =~= streaming_fields(config@, timeout));
    metadata::append_all(&mut headers, &fields);
    headers
}

/// Makes the headers of a GET request.
pub fn get_request_headers(config: &ClientConfig, timeout: Option<Duration>) -> (r: http::HeaderMap)
    ensures
        headers::header_contents(r) == headers::with_fields(
            headers::no_headers(),
            get_fields(config@, timeout),
        ),
{
    let mut headers = headers::new_headers();
    let mut fields: Vec<HeaderField> = Vec::new();
    proof {
        metadata::protocol_names_are_canonical("accept-encoding"@);
        assert(headers::field_views(fields@) =~= Seq::empty());
    }
    push_timeout(&mut fields, timeout, Protocol::Connect);
    push_advertised(&mut fields, "accept-encoding", &config.compression);
    proof {
        assert(headers::field_views(fields@) =~= get_fields(config@, timeout));
        metadata::with_fields_names(headers::no_headers(), get_fields(config@, timeout));
        assert(headers::no_headers().dom() =~= Set::empty());
    }
    metadata::append_all(&mut headers, &fields);
    headers
}

} // verus!
