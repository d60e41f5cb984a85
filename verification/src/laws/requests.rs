//! What a call sends, whatever its kind.

use vstd::prelude::*;
use crate::call::{CallView, HttpMethod, StreamingView};
use crate::call;
use crate::config::{ConfigView, OptionsView};
use crate::config;
use crate::encoding;
use crate::envelope::EncoderView;
use crate::envelope;
use crate::error::ErrorCode;
use crate::error;
use crate::headers;
use crate::laws;
use crate::metadata;
use crate::protocol::{CodecFormat, Protocol};
use crate::request;
use crate::timeout;
use crate::uri;

verus! {

/// The content type of a call: each protocol has its own, Connect one for single
/// messages and one for streams.
pub open spec fn content_type(protocol: Protocol, format: CodecFormat, streaming: bool) -> Seq<
    char,
> {
    if protocol == Protocol::Grpc {
        if format == CodecFormat::Json {
            "application/grpc+json"@
        } else {
            "application/grpc+proto"@
        }
    } else if protocol == Protocol::GrpcWeb {
        if format == CodecFormat::Json {
            "application/grpc-web+json"@
        } else {
            "application/grpc-web+proto"@
        }
    } else if streaming {
        if format == CodecFormat::Json {
            "application/connect+json"@
        } else {
            "application/connect+proto"@
        }
    } else if format == CodecFormat::Json {
        "application/json"@
    } else {
        "application/proto"@
    }
}

/// A value that only some calls have.
pub open spec fn only_if(condition: bool, value: Option<Seq<char>>) -> Option<Seq<char>> {
    if condition {
        value
    } else {
        None
    }
}

/// Whether a message of this size is compressed: when the client compresses
/// requests and the call asks for it or, when it does not say, the size reaches
/// the smallest one that the policy compresses.
pub open spec fn is_compressed(config: ConfigView, options: OptionsView, size: nat) -> bool {
    config.request_compression is Some && (options.compress == Some(true) || (options.compress
        is None && config.compression_policy.enabled && size
        >= config.compression_policy.min_size))
}

/// The timeout of a call: its own, else that of the configuration.
pub open spec fn call_timeout(config: ConfigView, options: OptionsView) -> Option<Seq<char>> {
    if options.timeout is Some {
        Some(
            timeout::timeout_text(
                timeout::duration_nanos(options.timeout->Some_0) as nat,
                config.protocol,
            ),
        )
    } else if config.default_timeout is Some {
        Some(
            timeout::timeout_text(
                timeout::duration_nanos(config.default_timeout->Some_0) as nat,
                config.protocol,
            ),
        )
    } else {
        None
    }
}

/// The encodings that a client asks for.
pub open spec fn asked_for(config: ConfigView) -> Option<Seq<char>> {
    if config.compression.gzip {
        Some("gzip"@)
    } else {
        None
    }
}

/// Whether a name is set by the caller: in the options of the call or in the
/// configuration.
pub open spec fn is_set(config: ConfigView, options: OptionsView, name: Seq<char>) -> bool {
    options.headers.dom().contains(name) || config.default_headers.dom().contains(name)
}

/// Whether a request has, next to what the caller sets, a header with just this
/// value, or none when there is no value. What the caller sets stays as it is:
/// the call's own headers, else those of the configuration.
pub open spec fn sends(
    config: ConfigView,
    options: OptionsView,
    h: headers::Headers,
    name: Seq<char>,
    value: Option<Seq<char>>,
) -> bool {
    if options.headers.dom().contains(name) {
        h.dom().contains(name) && h[name] == options.headers[name]
    } else if config.default_headers.dom().contains(name) {
        h.dom().contains(name) && h[name] == config.default_headers[name]
    } else {
        laws::carries(h, name, value)
    }
}

/// The headers that the protocols add to requests.
pub open spec fn is_request_name(n: Seq<char>) -> bool {
    ||| n == "content-type"@
    ||| n == "connect-protocol-version"@
    ||| n == "te"@
    ||| n == "content-encoding"@
    ||| n == "connect-content-encoding"@
    ||| n == "grpc-encoding"@
    ||| n == "accept-encoding"@
    ||| n == "connect-accept-encoding"@
    ||| n == "grpc-accept-encoding"@
    ||| n == "connect-timeout-ms"@
    ||| n == "grpc-timeout"@
}

/// The names of the protocols' headers are all different.
proof fn request_names_differ()
    ensures
        ({
            let a = "content-type"@;
            let b = "connect-protocol-version"@;
            let c = "te"@;
            let d = "content-encoding"@;
            let e = "connect-content-encoding"@;
            let f = "grpc-encoding"@;
            let g = "accept-encoding"@;
            let i = "connect-accept-encoding"@;
            let j = "grpc-accept-encoding"@;
            let k = "connect-timeout-ms"@;
            let l = "grpc-timeout"@;
            &&& a != b && a != c && a != d && a != e && a != f && a != g && a != i && a != j && a
                != k && a != l
            &&& b != c && b != d && b != e && b != f && b != g && b != i && b != j && b != k && b
                != l
            &&& c != d && c != e && c != f && c != g && c != i && c != j && c != k && c != l
            &&& d != e && d != f && d != g && d != i && d != j && d != k && d != l
            &&& e != f && e != g && e != i && e != j && e != k && e != l
            &&& f != g && f != i && f != j && f != k && f != l
            &&& g != i && g != j && g != k && g != l
            &&& i != j && i != k && i != l
            &&& j != k && j != l
            &&& k != l
        }),
{
    reveal_strlit("content-type");
    reveal_strlit("connect-protocol-version");
    reveal_strlit("te");
    reveal_strlit("content-encoding");
    reveal_strlit("connect-content-encoding");
    reveal_strlit("grpc-encoding");
    reveal_strlit("accept-encoding");
    reveal_strlit("connect-accept-encoding");
    reveal_strlit("grpc-accept-encoding");
    reveal_strlit("connect-timeout-ms");
    reveal_strlit("grpc-timeout");
    assert("content-type"@.len() == 12);
    assert("connect-protocol-version"@.len() == 24);
    assert("te"@.len() == 2);
    assert("content-encoding"@.len() == 16);
    assert("connect-content-encoding"@.len() == 24);
    assert("grpc-encoding"@.len() == 13);
    assert("accept-encoding"@.len() == 15);
    assert("connect-accept-encoding"@.len() == 23);
    assert("grpc-accept-encoding"@.len() == 20);
    assert("connect-timeout-ms"@.len() == 18);
    assert("grpc-timeout"@.len() == 12);
    assert("content-type"@[0] != "grpc-timeout"@[0]);
    assert("connect-protocol-version"@[8] != "connect-content-encoding"@[8]);
}

/// A name that occurs just once among some fields has just that value, and one
/// that does not occur is absent.
proof fn fields_give_values(fields: Seq<(Seq<char>, (Seq<u8>, bool))>, name: Seq<char>)
    requires
        forall|i: int, j: int|
            0 <= i < j < fields.len() ==> (#[trigger] fields[i]).0 != (#[trigger] fields[j]).0,
    ensures
        ({
            let h = headers::with_fields(headers::no_headers(), fields);
            &&& forall|i: int|
                0 <= i < fields.len() && (#[trigger] fields[i]).0 == name ==> h.dom().contains(name)
                    && h[name] == seq![fields[i].1]
            &&& (forall|i: int| 0 <= i < fields.len() ==> (#[trigger] fields[i]).0 != name)
                ==> !h.dom().contains(name)
        }),
    decreases fields.len(),
{
    if fields.len() > 0 {
        let shorter = fields.drop_last();
        let h = headers::with_fields(headers::no_headers(), shorter);
        assert forall|i: int, j: int| 0 <= i < j < shorter.len() implies (#[trigger] shorter[i]).0
            != (#[trigger] shorter[j]).0 by {
            assert(fields[i].0 != fields[j].0);
        }
        fields_give_values(shorter, name);
        let last = fields[fields.len() - 1];
        if last.0 == name {
            assert forall|i: int| 0 <= i < shorter.len() implies (#[trigger] shorter[i]).0
                != name by {
                assert(fields[i].0 != last.0);
            }
            assert(headers::values_of(h, name).push(last.1) =~= seq![last.1]);
        } else {
            assert forall|i: int|
                0 <= i < fields.len() && (#[trigger] fields[i]).0 == name implies {
                let all = headers::with_fields(headers::no_headers(), fields);
                all.dom().contains(name) && all[name] == seq![fields[i].1]
            } by {
                assert(shorter[i].0 == name);
            }
            if forall|i: int| 0 <= i < fields.len() ==> (#[trigger] fields[i]).0 != name {
                assert forall|i: int| 0 <= i < shorter.len() implies (#[trigger] shorter[i]).0
                    != name by {
                    assert(fields[i].0 != name);
                }
            }
        }
    }
}

/// What a request says in a header, given what the protocol's fields say.
proof fn request_says(
    fields: Seq<(Seq<char>, (Seq<u8>, bool))>,
    config: ConfigView,
    options: OptionsView,
    name: Seq<char>,
    value: Option<Seq<char>>,
)
    requires
        forall|i: int, j: int|
            0 <= i < j < fields.len() ==> (#[trigger] fields[i]).0 != (#[trigger] fields[j]).0,
        value matches Some(v) ==> fields.contains((name, (vstd::utf8::encode_utf8(v), false))),
        value is None ==> forall|i: int| 0 <= i < fields.len() ==> (#[trigger] fields[i]).0 != name,
    ensures
        sends(
            config,
            options,
            call::request_headers(fields, config::effective(config, options)),
            name,
            value,
        ),
{
    fields_give_values(fields, name);
    config::call_headers_win(config, options, name);
    call::caller_headers_win(fields, config::effective(config, options), name);
    if let Some(v) = value {
        let f = (name, (vstd::utf8::encode_utf8(v), false));
        let i = choose|i: int| 0 <= i < fields.len() && fields[i] == f;
        assert(fields[i].0 == name);
    }
}

/// Whether the protocol's part of the headers of a unary call is right.
pub open spec fn has_unary_headers(
    config: ConfigView,
    options: OptionsView,
    size: nat,
    h: headers::Headers,
) -> bool {
    let connect = config.protocol == Protocol::Connect;
    &&& sends(
        config,
        options,
        h,
        "content-type"@,
        Some(content_type(config.protocol, config.codec_format, false)),
    )
    &&& sends(config, options, h, "connect-protocol-version"@, only_if(connect, Some("1"@)))
    &&& sends(
        config,
        options,
        h,
        "te"@,
        only_if(config.protocol == Protocol::Grpc, Some("trailers"@)),
    )
    &&& sends(
        config,
        options,
        h,
        "content-encoding"@,
        only_if(connect && is_compressed(config, options, size), config.request_compression),
    )
    &&& sends(config, options, h, "grpc-encoding"@, only_if(!connect, config.request_compression))
    &&& sends(config, options, h, "connect-content-encoding"@, None)
    &&& sends(config, options, h, "accept-encoding"@, only_if(connect, asked_for(config)))
    &&& sends(config, options, h, "grpc-accept-encoding"@, only_if(!connect, asked_for(config)))
    &&& sends(config, options, h, "connect-accept-encoding"@, None)
    &&& sends(
        config,
        options,
        h,
        "connect-timeout-ms"@,
        only_if(connect, call_timeout(config, options)),
    )
    &&& sends(
        config,
        options,
        h,
        "grpc-timeout"@,
        only_if(!connect, call_timeout(config, options)),
    )
}

/// The headers of the protocol in a unary request.
proof fn unary_fields_are_right(
    config: ConfigView,
    options: OptionsView,
    size: nat,
    compressed: bool,
    name: Seq<char>,
)
    requires
        compressed == (config.protocol == Protocol::Connect && is_compressed(
            config,
            options,
            size,
        )),
    ensures
        ({
            let eff = config::effective(config, options);
            let fields = request::unary_fields(
                config,
                eff.timeout,
                call::applied_encoding(config, compressed),
            );
            let h = call::request_headers(fields, eff);
            &&& has_unary_headers(config, options, size, h)
            &&& h.dom().contains(name) ==> is_set(config, options, name) || is_request_name(name)
        }),
{
    let eff = config::effective(config, options);
    let applied = call::applied_encoding(config, compressed);
    let fields = request::unary_fields(config, eff.timeout, applied);
    let connect = config.protocol == Protocol::Connect;
    request_names_differ();
    registry_texts();
    assert forall|i: int, j: int| 0 <= i < j < fields.len() implies (#[trigger] fields[i]).0 != (
    #[trigger] fields[j]).0 by {}
    assert forall|i: int| 0 <= i < fields.len() implies is_request_name(
        (#[trigger] fields[i]).0,
    ) by {}
    config::call_headers_win(config, options, name);
    metadata::with_fields_names(headers::no_headers(), fields);
    let f = |n: Seq<char>, v: Seq<char>| (n, (vstd::utf8::encode_utf8(v), false));
    let ct = content_type(config.protocol, config.codec_format, false);
    assert(fields[0] == f("content-type"@, ct));
    request_says(fields, config, options, "content-type"@, Some(ct));
    if connect {
        assert(fields[1] == f("connect-protocol-version"@, "1"@));
    }
    request_says(
        fields,
        config,
        options,
        "connect-protocol-version"@,
        only_if(connect, Some("1"@)),
    );
    let grpc = config.protocol == Protocol::Grpc;
    if grpc {
        assert(fields[1] == f("te"@, "trailers"@));
    }
    request_says(fields, config, options, "te"@, only_if(grpc, Some("trailers"@)));
    if connect && compressed {
        assert(fields[2] == f("content-encoding"@, config.request_compression->Some_0));
    }
    request_says(
        fields,
        config,
        options,
        "content-encoding"@,
        only_if(connect && is_compressed(config, options, size), config.request_compression),
    );
    if !connect && config.request_compression is Some {
        let k: int = if grpc {
            2
        } else {
            1
        };
        assert(fields[k] == f("grpc-encoding"@, config.request_compression->Some_0));
    }
    request_says(
        fields,
        config,
        options,
        "grpc-encoding"@,
        only_if(!connect, config.request_compression),
    );
    request_says(fields, config, options, "connect-content-encoding"@, None);
    request_says(fields, config, options, "connect-accept-encoding"@, None);
    let asked = asked_for(config);
    let has_timeout = call_timeout(config, options) is Some;
    if asked is Some {
        let k: int = if has_timeout {
            fields.len() - 2
        } else {
            fields.len() - 1
        };
        if connect {
            assert(fields[k] == f("accept-encoding"@, asked->Some_0));
        } else {
            assert(fields[k] == f("grpc-accept-encoding"@, asked->Some_0));
        }
    }
    request_says(fields, config, options, "accept-encoding"@, only_if(connect, asked));
    request_says(fields, config, options, "grpc-accept-encoding"@, only_if(!connect, asked));
    if has_timeout {
        let t = call_timeout(config, options)->Some_0;
        if connect {
            assert(fields[fields.len() - 1] == f("connect-timeout-ms"@, t));
        } else {
            assert(fields[fields.len() - 1] == f("grpc-timeout"@, t));
        }
    }
    request_says(
        fields,
        config,
        options,
        "connect-timeout-ms"@,
        only_if(connect, call_timeout(config, options)),
    );
    request_says(
        fields,
        config,
        options,
        "grpc-timeout"@,
        only_if(!connect, call_timeout(config, options)),
    );
}

/// The lengths of the texts that tell registries apart.
proof fn registry_texts()
    ensures
        "gzip"@.len() == 4,
        "identity"@.len() == 8,
{
    reveal_strlit("gzip");
    reveal_strlit("identity");
}

/// Whether a receiver that decompresses with an encoding gets a message back.
pub open spec fn unpacks_to(
    config: ConfigView,
    packed: Seq<u8>,
    message: Seq<u8>,
    limit: usize,
) -> bool {
    config.request_compression is Some && (message.len() <= limit
        ==> config.compression.decompressed(
        config.request_compression->Some_0,
        packed,
        limit,
    ) == Ok::<Seq<u8>, error::ErrorView>(message))
}

/// Whether some bytes are the envelope of a message: as it is with flags zero or,
/// where messages of its size are compressed, compressed with flags one.
pub open spec fn envelops(
    config: ConfigView,
    options: OptionsView,
    message: Seq<u8>,
    sent: Seq<u8>,
    limit: usize,
) -> bool {
    if is_compressed(config, options, message.len()) {
        laws::is_envelope(sent, 1, sent.skip(5)) && unpacks_to(
            config,
            sent.skip(5),
            message,
            limit,
        )
    } else {
        laws::is_envelope(sent, 0, message)
    }
}

/// What the encoder of a call sends, a receiver takes out.
proof fn encoder_envelops(
    config: ConfigView,
    options: OptionsView,
    encoder: EncoderView,
    message: Seq<u8>,
    sent: Seq<u8>,
    limit: usize,
)
    requires
        encoder == call::call_encoder(config, options.compress),
        encoder.encodes(message, Ok(sent)),
    ensures
        envelops(config, options, message, sent, limit),
{
    let payload = choose|payload: Seq<u8>|
        #![trigger encoder.carries(message, payload)]
        encoder.carries(message, payload) && payload.len() <= u32::MAX && sent == envelope::framed(
            encoder.flags_for(message.len()),
            payload,
        );
    laws::framing_makes_an_envelope(encoder.flags_for(message.len()), payload);
    if is_compressed(config, options, message.len()) {
        config.compression.decompression_inverts_compression(
            config.request_compression->Some_0,
            message,
            payload,
            limit,
        );
    }
}

/// A unary call is a POST to the method's URI with the headers of its protocol
/// and no others but the caller's. A Connect server finds the message in the
/// body, compressed just when the request says so; a gRPC server finds it in the
/// one envelope of the body, and the request names the encoding of envelopes.
pub proof fn unary_call_is_complete(
    config: ConfigView,
    service: Seq<char>,
    method: Seq<char>,
    message: Seq<u8>,
    options: OptionsView,
    call: CallView,
    name: Seq<char>,
    limit: usize,
)
    requires
        call::is_unary_call(config, service, method, Ok(message), options, Ok(call)),
    ensures
        call.request.method == HttpMethod::Post,
        uri::uri_parsed(uri::method_path(config.base_uri, service, method)) == Ok::<
            Seq<char>,
            Seq<char>,
        >(call.request.uri),
        call.options == config::effective(config, options),
        has_unary_headers(config, options, message.len(), call.request.headers),
        call.request.headers.dom().contains(name) ==> is_set(config, options, name)
            || is_request_name(name),
        config.protocol == Protocol::Connect && !is_compressed(config, options, message.len())
            ==> call.request.body == message,
        config.protocol == Protocol::Connect && is_compressed(config, options, message.len())
            ==> unpacks_to(config, call.request.body, message, limit),
        config.protocol != Protocol::Connect ==> envelops(
            config,
            options,
            message,
            call.request.body,
            limit,
        ),
{
    let eff = config::effective(config, options);
    let u = uri::method_uri(config.base_uri, service, method)->Ok_0;
    let b = choose|b: Result<(Seq<u8>, bool), error::ErrorView>|
        #![trigger call::unary_result(config, eff, u, b)]
        call::unary_body(config, eff.compress, message, b) && Ok::<CallView, error::ErrorView>(call)
            == call::unary_result(config, eff, u, b);
    let (body, compressed) = b->Ok_0;
    unary_fields_are_right(config, options, message.len(), compressed, name);
    if config.protocol == Protocol::Connect {
        if compressed {
            config.compression.decompression_inverts_compression(
                config.request_compression->Some_0,
                message,
                body,
                limit,
            );
        }
    } else {
        encoder_envelops(
            config,
            eff,
            call::call_encoder(config, eff.compress),
            message,
            body,
            limit,
        );
    }
}

/// Whether the protocol's part of the headers of a streaming call is right.
pub open spec fn has_streaming_headers(
    config: ConfigView,
    options: OptionsView,
    h: headers::Headers,
) -> bool {
    let connect = config.protocol == Protocol::Connect;
    &&& sends(
        config,
        options,
        h,
        "content-type"@,
        Some(content_type(config.protocol, config.codec_format, true)),
    )
    &&& sends(
        config,
        options,
        h,
        "connect-protocol-version"@,
        only_if(connect, Some("1"@)),
    )
    &&& sends(
        config,
        options,
        h,
        "te"@,
        only_if(config.protocol == Protocol::Grpc, Some("trailers"@)),
    )
    &&& sends(
        config,
        options,
        h,
        "content-encoding"@,
        None,
    )
    &&& sends(
        config,
        options,
        h,
        "connect-content-encoding"@,
        only_if(connect, config.request_compression),
    )
    &&& sends(
        config,
        options,
        h,
        "grpc-encoding"@,
        only_if(!connect, config.request_compression),
    )
    &&& sends(
        config,
        options,
        h,
        "accept-encoding"@,
        None,
    )
    &&& sends(
        config,
        options,
        h,
        "connect-accept-encoding"@,
        only_if(connect, asked_for(config)),
    )
    &&& sends(
        config,
        options,
        h,
        "grpc-accept-encoding"@,
        only_if(!connect, asked_for(config)),
    )
    &&& sends(
        config,
        options,
        h,
        "connect-timeout-ms"@,
        only_if(connect, call_timeout(config, options)),
    )
    &&& sends(
        config,
        options,
        h,
        "grpc-timeout"@,
        only_if(!connect, call_timeout(config, options)),
    )
}

/// The headers of the protocol in a streaming request.
#[verifier::rlimit(60)]
proof fn streaming_fields_are_right(config: ConfigView, options: OptionsView, name: Seq<char>)
    ensures
        ({
            let eff = config::effective(config, options);
            let h = call::request_headers(request::streaming_fields(config, eff.timeout), eff);
            &&& has_streaming_headers(config, options, h)
            &&& h.dom().contains(name) ==> is_set(config, options, name) || is_request_name(name)
        }),
{
    let eff = config::effective(config, options);
    let fields = request::streaming_fields(config, eff.timeout);
    let connect = config.protocol == Protocol::Connect;
    let grpc = config.protocol == Protocol::Grpc;
    request_names_differ();
    registry_texts();
    assert forall|i: int, j: int| 0 <= i < j < fields.len() implies (#[trigger] fields[i]).0 != (
    #[trigger] fields[j]).0 by {}
    assert forall|i: int| 0 <= i < fields.len() implies is_request_name(
        (#[trigger] fields[i]).0,
    ) by {}
    config::call_headers_win(config, options, name);
    metadata::with_fields_names(headers::no_headers(), fields);
    let f = |n: Seq<char>, v: Seq<char>| (n, (vstd::utf8::encode_utf8(v), false));
    let asked = asked_for(config);
    let has_timeout = call_timeout(config, options) is Some;
    let start: int = if config.protocol == Protocol::GrpcWeb {
        1
    } else {
        2
    };
    assert(fields[0] == f(
        "content-type"@,
        content_type(config.protocol, config.codec_format, true),
    ));
    if connect {
        assert(fields[1] == f("connect-protocol-version"@, "1"@));
    }
    if grpc {
        assert(fields[1] == f("te"@, "trailers"@));
    }
    if let Some(enc) = config.request_compression {
        if connect {
            assert(fields[start] == f("connect-content-encoding"@, enc));
        } else {
            assert(fields[start] == f("grpc-encoding"@, enc));
        }
    }
    if let Some(a) = asked {
        let k: int = if has_timeout {
            fields.len() - 2
        } else {
            fields.len() - 1
        };
        if connect {
            assert(fields[k] == f("connect-accept-encoding"@, a));
        } else {
            assert(fields[k] == f("grpc-accept-encoding"@, a));
        }
    }
    if let Some(t) = call_timeout(config, options) {
        if connect {
            assert(fields[fields.len() - 1] == f("connect-timeout-ms"@, t));
        } else {
            assert(fields[fields.len() - 1] == f("grpc-timeout"@, t));
        }
    }
    request_says(fields, config, options, "content-type"@, Some(content_type(config.protocol, config.codec_format, true)));
    request_says(fields, config, options, "connect-protocol-version"@, only_if(connect, Some("1"@)));
    request_says(fields, config, options, "te"@, only_if(config.protocol == Protocol::Grpc, Some("trailers"@)));
    request_says(fields, config, options, "content-encoding"@, None);
    request_says(fields, config, options, "connect-content-encoding"@, only_if(connect, config.request_compression));
    request_says(fields, config, options, "grpc-encoding"@, only_if(!connect, config.request_compression));
    request_says(fields, config, options, "accept-encoding"@, None);
    request_says(fields, config, options, "connect-accept-encoding"@, only_if(connect, asked_for(config)));
    request_says(fields, config, options, "grpc-accept-encoding"@, only_if(!connect, asked_for(config)));
    request_says(fields, config, options, "connect-timeout-ms"@, only_if(connect, call_timeout(config, options)));
    request_says(fields, config, options, "grpc-timeout"@, only_if(!connect, call_timeout(config, options)));
}

/// Whether the headers of a GET request are right.
pub open spec fn has_get_headers(
    config: ConfigView,
    options: OptionsView,
    h: headers::Headers,
) -> bool {
    &&& sends(
        config,
        options,
        h,
        "accept-encoding"@,
        asked_for(config),
    )
    &&& sends(
        config,
        options,
        h,
        "connect-timeout-ms"@,
        call_timeout(config, options),
    )
    &&& sends(
        config,
        options,
        h,
        "content-type"@,
        None,
    )
    &&& sends(
        config,
        options,
        h,
        "connect-protocol-version"@,
        None,
    )
    &&& sends(
        config,
        options,
        h,
        "te"@,
        None,
    )
    &&& sends(
        config,
        options,
        h,
        "content-encoding"@,
        None,
    )
    &&& sends(
        config,
        options,
        h,
        "connect-content-encoding"@,
        None,
    )
    &&& sends(
        config,
        options,
        h,
        "grpc-encoding"@,
        None,
    )
    &&& sends(
        config,
        options,
        h,
        "connect-accept-encoding"@,
        None,
    )
    &&& sends(
        config,
        options,
        h,
        "grpc-accept-encoding"@,
        None,
    )
    &&& sends(
        config,
        options,
        h,
        "grpc-timeout"@,
        None,
    )
}

/// The headers of a GET request.
proof fn get_fields_are_right(config: ConfigView, options: OptionsView, name: Seq<char>)
    requires
        config.protocol == Protocol::Connect,
    ensures
        ({
            let eff = config::effective(config, options);
            let h = call::request_headers(request::get_fields(config, eff.timeout), eff);
            &&& has_get_headers(config, options, h)
            &&& h.dom().contains(name) ==> is_set(config, options, name) || is_request_name(name)
        }),
{
    let eff = config::effective(config, options);
    let fields = request::get_fields(config, eff.timeout);
    request_names_differ();
    registry_texts();
    assert forall|i: int, j: int| 0 <= i < j < fields.len() implies (#[trigger] fields[i]).0 != (
    #[trigger] fields[j]).0 by {}
    config::call_headers_win(config, options, name);
    metadata::with_fields_names(headers::no_headers(), fields);
    if let Some(t) = call_timeout(config, options) {
        assert(fields[0].1 == (vstd::utf8::encode_utf8(t), false));
    }
    if let Some(a) = asked_for(config) {
        assert(fields[fields.len() - 1].1 == (vstd::utf8::encode_utf8(a), false));
    }
    request_says(fields, config, options, "accept-encoding"@, asked_for(config));
    request_says(fields, config, options, "connect-timeout-ms"@, call_timeout(config, options));
    request_says(fields, config, options, "content-type"@, None);
    request_says(fields, config, options, "connect-protocol-version"@, None);
    request_says(fields, config, options, "te"@, None);
    request_says(fields, config, options, "content-encoding"@, None);
    request_says(fields, config, options, "connect-content-encoding"@, None);
    request_says(fields, config, options, "grpc-encoding"@, None);
    request_says(fields, config, options, "connect-accept-encoding"@, None);
    request_says(fields, config, options, "grpc-accept-encoding"@, None);
    request_says(fields, config, options, "grpc-timeout"@, None);
}

/// A streaming call is a POST to the method's URI with the headers of its
/// protocol and no others but the caller's. Each message travels in an envelope of
/// its own, out of which a server that goes by the headers takes it again.
pub proof fn streaming_call_is_complete(
    config: ConfigView,
    service: Seq<char>,
    method: Seq<char>,
    options: OptionsView,
    call: StreamingView,
    message: Seq<u8>,
    sent: Seq<u8>,
    name: Seq<char>,
    limit: usize,
)
    requires
        call::streaming_call(config, service, method, options) == Ok::<
            StreamingView,
            error::ErrorView,
        >(call),
    ensures
        call.request.method == HttpMethod::Post,
        uri::uri_parsed(uri::method_path(config.base_uri, service, method)) == Ok::<
            Seq<char>,
            Seq<char>,
        >(call.request.uri),
        call.request.body.len() == 0,
        call.options == config::effective(config, options),
        has_streaming_headers(config, options, call.request.headers),
        call.request.headers.dom().contains(name) ==> is_set(config, options, name)
            || is_request_name(name),
        call::is_sent_message(call.encoder, Ok(message), Ok(sent)) ==> envelops(
            config,
            options,
            message,
            sent,
            limit,
        ),
{
    streaming_fields_are_right(config, options, name);
    let eff = config::effective(config, options);
    if call::is_sent_message(call.encoder, Ok(message), Ok(sent)) {
        encoder_envelops(config, eff, call.encoder, message, sent, limit);
    }
}

/// A server-streaming call sends its one message in an envelope, with the headers
/// of a streaming call.
pub proof fn server_stream_call_is_complete(
    config: ConfigView,
    service: Seq<char>,
    method: Seq<char>,
    message: Seq<u8>,
    options: OptionsView,
    call: CallView,
    name: Seq<char>,
    limit: usize,
)
    requires
        call::is_server_stream_call(config, service, method, Ok(message), options, Ok(call)),
    ensures
        call.request.method == HttpMethod::Post,
        uri::uri_parsed(uri::method_path(config.base_uri, service, method)) == Ok::<
            Seq<char>,
            Seq<char>,
        >(call.request.uri),
        call.options == config::effective(config, options),
        has_streaming_headers(config, options, call.request.headers),
        call.request.headers.dom().contains(name) ==> is_set(config, options, name)
            || is_request_name(name),
        envelops(config, options, message, call.request.body, limit),
{
    let c = call::addressed_call(config, service, method, options)->Ok_0;
    let e = choose|e: Result<Seq<u8>, error::ErrorView>|
        #![trigger call::server_stream_result(config, c, e)]
        call::is_sent_message(c.encoder, Ok(message), e) && Ok::<CallView, error::ErrorView>(call)
            == call::server_stream_result(config, c, e);
    streaming_call_is_complete(
        config,
        service,
        method,
        options,
        c,
        message,
        e->Ok_0,
        name,
        limit,
    );
}

/// A GET call is a GET of the method's URI without a body, with the message in
/// the query: in base64 for protobuf and whenever it is compressed, which the
/// query then says together with the encoding, else percent-encoded.
pub proof fn get_call_is_complete(
    config: ConfigView,
    service: Seq<char>,
    method: Seq<char>,
    message: Seq<u8>,
    options: OptionsView,
    call: CallView,
    name: Seq<char>,
    limit: usize,
)
    requires
        call::is_get_call(config, service, method, Ok(message), options, Ok(call)),
    ensures
        config.protocol == Protocol::Connect,
        call.request.method == HttpMethod::Get,
        call.request.body.len() == 0,
        call.options == config::effective(config, options),
        has_get_headers(config, options, call.request.headers),
        call.request.headers.dom().contains(name) ==> is_set(config, options, name)
            || is_request_name(name),
        exists|payload: Seq<u8>|
            {
                let path = uri::method_path(config.base_uri, service, method)
                    + #[trigger] query_of(config, options, message.len(), payload);
                &&& uri::uri_parsed(path) == Ok::<Seq<char>, Seq<char>>(call.request.uri)
                &&& !is_compressed(config, options, message.len()) ==> payload == message
                &&& is_compressed(config, options, message.len()) ==> unpacks_to(
                    config,
                    payload,
                    message,
                    limit,
                )
            },
{
    let eff = config::effective(config, options);
    let p = choose|p: Result<(Seq<u8>, bool), error::ErrorView>|
        #![trigger call::get_result(config, service, method, eff, p)]
        call::packs(config, eff.compress, message, p) && Ok::<CallView, error::ErrorView>(call)
            == call::get_result(config, service, method, eff, p);
    let (payload, compressed) = p->Ok_0;
    get_fields_are_right(config, options, name);
    if compressed {
        config.compression.decompression_inverts_compression(
            config.request_compression->Some_0,
            message,
            payload,
            limit,
        );
    }
    let base = uri::method_path(config.base_uri, service, method);
    query_is_written_out(config, payload, compressed);
    assert(compressed == is_compressed(config, options, message.len()));
    assert(call::get_path(config, service, method, payload, compressed) =~= base + query_of(
        config,
        options,
        message.len(),
        payload,
    ));
}

/// The query of a GET request whose message is packed as `payload`.
pub open spec fn query_of(
    config: ConfigView,
    options: OptionsView,
    size: nat,
    payload: Seq<u8>,
) -> Seq<char> {
    let json = config.codec_format == CodecFormat::Json;
    if is_compressed(config, options, size) {
        (if json {
            "?connect=v1&encoding=json&message="@
        } else {
            "?connect=v1&encoding=proto&message="@
        }) + encoding::url_safe_base64(payload) + "&base64=1&compression="@
            + config.request_compression->Some_0
    } else if json {
        "?connect=v1&encoding=json&message="@ + encoding::percent_encoded(payload)
    } else {
        "?connect=v1&encoding=proto&message="@ + encoding::url_safe_base64(payload)
            + "&base64=1"@
    }
}

/// The fixed parts of the query of a GET request.
proof fn query_is_written_out(config: ConfigView, payload: Seq<u8>, compressed: bool)
    requires
        compressed ==> config.request_compression is Some,
    ensures
        ({
            let json = config.codec_format == CodecFormat::Json;
            let q = "?"@ + call::get_query(config, payload, compressed);
            let start = if json {
                "?connect=v1&encoding=json&message="@
            } else {
                "?connect=v1&encoding=proto&message="@
            };
            &&& compressed ==> q == start + encoding::url_safe_base64(payload)
                + "&base64=1&compression="@ + config.request_compression->Some_0
            &&& !compressed && json ==> q == start + encoding::percent_encoded(payload)
            &&& !compressed && !json ==> q == start + encoding::url_safe_base64(payload)
                + "&base64=1"@
        }),
{
    reveal_strlit("?connect=v1&encoding=json&message=");
    reveal_strlit("?connect=v1&encoding=proto&message=");
    reveal_strlit("connect=v1&encoding=");
    reveal_strlit("&message=");
    reveal_strlit("json");
    reveal_strlit("proto");
    reveal_strlit("?");
    reveal_strlit("&base64=1&compression=");
    reveal_strlit("&base64=1");
    reveal_strlit("&compression=");
    let json = config.codec_format == CodecFormat::Json;
    let q = "?"@ + call::get_query(config, payload, compressed);
    assert("?"@ + ("connect=v1&encoding="@ + "json"@ + "&message="@)
        =~= "?connect=v1&encoding=json&message="@);
    assert("?"@ + ("connect=v1&encoding="@ + "proto"@ + "&message="@)
        =~= "?connect=v1&encoding=proto&message="@);
    assert("&base64=1"@ + "&compression="@ =~= "&base64=1&compression="@);
    let codec = config.codec_format.name();
    let m = call::get_message(config.codec_format, payload, compressed);
    let start = "?"@ + ("connect=v1&encoding="@ + codec + "&message="@);
    if compressed {
        assert(q =~= start + m + ("&base64=1"@ + "&compression="@)
            + config.request_compression->Some_0);
    } else if json {
        assert(q =~= start + m);
    } else {
        assert(q =~= start + m + "&base64=1"@);
    }
}

/// The path of a method: base, service and method with a slash before each of the
/// latter two, whether or not the base ends with slashes.
pub proof fn method_path_is_written_out(
    base: Seq<char>,
    service: Seq<char>,
    method: Seq<char>,
)
    requires
        base.len() > 0 ==> base.last() != '/',
    ensures
        uri::method_path(base, service, method) == base + seq!['/'] + service + seq!['/'] + method,
        uri::method_path(base.push('/'), service, method) == base + seq!['/'] + service + seq!['/']
            + method,
{
    reveal_strlit("/");
    assert("/"@ =~= seq!['/']);
    uri::base_slash_is_ignored(base, service, method);
}

/// What a call does not set, its configuration sets; the largest message is of
/// four mebibytes where neither says otherwise.
pub proof fn call_options_win(config: ConfigView, options: OptionsView)
    ensures
        ({
            let eff = config::effective(config, options);
            &&& options.timeout is Some ==> eff.timeout == options.timeout
            &&& options.timeout is None ==> eff.timeout == config.default_timeout
            &&& options.max_message_size is Some ==> eff.max_message_size
                == options.max_message_size && eff.message_limit()
                == options.max_message_size->Some_0
            &&& options.max_message_size is None ==> eff.max_message_size
                == config.default_max_message_size
            &&& options.max_message_size is None && config.default_max_message_size is Some
                ==> eff.message_limit() == config.default_max_message_size->Some_0
            &&& options.max_message_size is None && config.default_max_message_size is None
                ==> eff.message_limit() == 4 * 1024 * 1024
            &&& eff.compress == options.compress
        }),
{
}

/// Whether a call has to compress a message with an encoding that the client does
/// not know.
pub open spec fn lacks_encoding(config: ConfigView, options: OptionsView, size: nat) -> bool {
    is_compressed(config, options, size) && !laws::can_unpack(
        config.compression,
        config.request_compression->Some_0,
    )
}

/// Whether the name of the encoding of requests can stand in a header: it holds
/// no control character but the tab.
pub open spec fn can_name_encoding(config: ConfigView) -> bool {
    config.request_compression matches Some(enc) ==> {
        let b = vstd::utf8::encode_utf8(enc);
        forall|i: int| 0 <= i < b.len() ==> (#[trigger] b[i] == 9 || (b[i] >= 32 && b[i] != 127))
    }
}

/// The error for a URI that is none.
pub open spec fn bad_uri(cause: Seq<char>) -> error::ErrorView {
    error::plain_error(ErrorCode::Internal, "invalid URI: "@ + cause)
}

/// When a unary call succeeds, and how it fails: first for its URI, then with the
/// error that encoding the message gave, then because the encoding of requests is
/// not known.
pub proof fn unary_call_fails_for_a_reason(
    config: ConfigView,
    service: Seq<char>,
    method: Seq<char>,
    message: Result<Seq<u8>, error::ErrorView>,
    options: OptionsView,
    r: Result<CallView, error::ErrorView>,
)
    requires
        call::is_unary_call(config, service, method, message, options, r),
    ensures
        match (uri::uri_parsed(uri::method_path(config.base_uri, service, method)), message) {
            (Err(x), _) => r == Err::<CallView, error::ErrorView>(bad_uri(x)),
            (Ok(_), Err(e)) => r == Err::<CallView, error::ErrorView>(e),
            (Ok(_), Ok(m)) => {
                let connect = config.protocol == Protocol::Connect;
                &&& lacks_encoding(config, options, m.len()) ==> r is Err && r->Err_0.code == if connect {
                    ErrorCode::Unimplemented
                } else {
                    ErrorCode::Internal
                }
                &&& connect && !lacks_encoding(config, options, m.len()) ==> r is Ok
                &&& !connect && can_name_encoding(config) && !is_compressed(
                    config,
                    options,
                    m.len(),
                ) && m.len() <= u32::MAX ==> r is Ok
                &&& !connect && !can_name_encoding(config) ==> r is Err
                &&& r is Err ==> r->Err_0.code == ErrorCode::Internal || r->Err_0.code
                    == ErrorCode::Unimplemented
            },
        },
{
    let eff = config::effective(config, options);
    if let (Ok(u), Ok(m)) = (
        uri::uri_parsed(uri::method_path(config.base_uri, service, method)),
        message,
    ) {
        let b = choose|b: Result<(Seq<u8>, bool), error::ErrorView>|
            #![trigger call::unary_result(config, eff, u, b)]
            call::unary_body(config, eff.compress, m, b) && r == call::unary_result(
                config,
                eff,
                u,
                b,
            );
        known_encodings(config);
        let encoder = call::call_encoder(config, eff.compress);
        assert(encoder.compresses(m.len()) == is_compressed(config, options, m.len()));
        if config.protocol != Protocol::Connect {
            if b is Err {
                let cause = choose|cause: error::ErrorView|
                    #![trigger cause.display()]
                    encoder.encodes(m, Err(cause)) && b->Err_0 == error::plain_error(
                        ErrorCode::Internal,
                        "envelope encode failed: "@ + cause.display(),
                    );
                if !is_compressed(config, options, m.len()) {
                    assert(!encoder.lacks_encoding(m.len()));
                    assert(forall|p: Seq<u8>| #[trigger] encoder.carries(m, p) ==> p == m);
                }
            } else if lacks_encoding(config, options, m.len()) {
                let p = choose|p: Seq<u8>|
                    #![trigger encoder.carries(m, p)]
                    encoder.carries(m, p) && p.len() <= u32::MAX && b->Ok_0.0 == envelope::framed(
                        encoder.flags_for(m.len()),
                        p,
                    );
                assert(encoder.carries(m, p));
            }
        }
    }
}

/// The encodings that a client knows, and how they relate to header values.
proof fn known_encodings(config: ConfigView)
    ensures
        config.request_compression matches Some(enc) ==> (config.compression.knows(enc) || enc
            == "identity"@) == laws::can_unpack(config.compression, enc),
        can_name_encoding(config) == call::can_declare_encoding(config),
{
    if let Some(enc) = config.request_compression {
        let b = vstd::utf8::encode_utf8(enc);
        assert((forall|i: int|
            0 <= i < b.len() ==> (#[trigger] b[i] == 9 || (b[i] >= 32 && b[i] != 127)))
            == headers::is_header_value(b));
    }
}

/// When a GET call succeeds, and how it fails: in any protocol but Connect, then
/// with the error that encoding the message gave, then because the encoding of
/// requests is not known.
pub proof fn get_call_fails_for_a_reason(
    config: ConfigView,
    service: Seq<char>,
    method: Seq<char>,
    message: Result<Seq<u8>, error::ErrorView>,
    options: OptionsView,
    r: Result<CallView, error::ErrorView>,
)
    requires
        call::is_get_call(config, service, method, message, options, r),
    ensures
        config.protocol != Protocol::Connect ==> r is Err && r->Err_0.code
            == ErrorCode::InvalidArgument,
        config.protocol == Protocol::Connect ==> match message {
            Err(e) => r == Err::<CallView, error::ErrorView>(e),
            Ok(m) => {
                &&& lacks_encoding(config, options, m.len()) ==> r is Err && r->Err_0.code
                    == ErrorCode::Unimplemented
                &&& !lacks_encoding(config, options, m.len()) && r is Err ==> r->Err_0.code
                    == ErrorCode::Internal
            },
        },
{
    known_encodings(config);
}

/// When a streaming call is opened, and how opening it fails: for its URI, then
/// because the encoding of requests cannot be named.
pub proof fn streaming_call_fails_for_a_reason(
    config: ConfigView,
    service: Seq<char>,
    method: Seq<char>,
    options: OptionsView,
)
    ensures
        match uri::uri_parsed(uri::method_path(config.base_uri, service, method)) {
            Err(x) => call::streaming_call(config, service, method, options) == Err::<
                StreamingView,
                error::ErrorView,
            >(bad_uri(x)),
            Ok(_) => {
                let r = call::streaming_call(config, service, method, options);
                &&& r is Ok <==> can_name_encoding(config)
                &&& r is Err ==> r->Err_0.code == ErrorCode::Internal
            },
        },
{
    known_encodings(config);
}

/// When a server-streaming call succeeds, and how it fails.
pub proof fn server_stream_call_fails_for_a_reason(
    config: ConfigView,
    service: Seq<char>,
    method: Seq<char>,
    message: Result<Seq<u8>, error::ErrorView>,
    options: OptionsView,
    r: Result<CallView, error::ErrorView>,
)
    requires
        call::is_server_stream_call(config, service, method, message, options, r),
    ensures
        match (uri::uri_parsed(uri::method_path(config.base_uri, service, method)), message) {
            (Err(x), _) => r == Err::<CallView, error::ErrorView>(bad_uri(x)),
            (Ok(_), Err(e)) => r == Err::<CallView, error::ErrorView>(e),
            (Ok(_), Ok(m)) => {
                &&& lacks_encoding(config, options, m.len()) ==> r is Err && r->Err_0.code
                    == ErrorCode::Unimplemented
                &&& !is_compressed(config, options, m.len()) && m.len() <= u32::MAX && can_name_encoding(
                    config,
                ) ==> r is Ok
                &&& !can_name_encoding(config) ==> r is Err
            },
        },
{
    known_encodings(config);
    let eff = config::effective(config, options);
    if let Ok(c) = call::addressed_call(config, service, method, options) {
        let e = choose|e: Result<Seq<u8>, error::ErrorView>|
            #![trigger call::server_stream_result(config, c, e)]
            call::is_sent_message(c.encoder, message, e) && r == call::server_stream_result(
                config,
                c,
                e,
            );
        if let Ok(m) = message {
            sending_fails_for_a_reason(config, options, c.encoder, m, e);
        }
    }
}

/// When putting one message of a call into its envelope succeeds, and how it
/// fails.
pub proof fn sending_fails_for_a_reason(
    config: ConfigView,
    options: OptionsView,
    encoder: EncoderView,
    message: Seq<u8>,
    r: Result<Seq<u8>, error::ErrorView>,
)
    requires
        encoder == call::call_encoder(config, options.compress),
        call::is_sent_message(encoder, Ok(message), r),
    ensures
        lacks_encoding(config, options, message.len()) ==> r is Err && r->Err_0.code
            == ErrorCode::Unimplemented,
        !is_compressed(config, options, message.len()) && message.len() <= u32::MAX ==> r is Ok,
        !lacks_encoding(config, options, message.len()) && r is Err ==> r->Err_0.code
            == ErrorCode::ResourceExhausted,
{
    known_encodings(config);
    assert(encoder.compresses(message.len()) == is_compressed(config, options, message.len()));
    if lacks_encoding(config, options, message.len()) {
        assert(forall|p: Seq<u8>| !(#[trigger] encoder.carries(message, p)));
    } else if !is_compressed(config, options, message.len()) {
        assert(forall|p: Seq<u8>| #[trigger] encoder.carries(message, p) ==> p == message);
    }
}

} // verus!
