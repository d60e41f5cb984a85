//! How errors are told on the wire: codes, HTTP statuses, gRPC statuses in
//! trailers, and the errors that Connect servers describe.

use vstd::prelude::*;
use crate::bidi;
use crate::body;
use crate::client_stream;
use crate::compression::CompressionRegistry;
use crate::compression;
use crate::config::OptionsView;
use crate::encoding;
use crate::end_stream;
use crate::error::{DetailView, ErrorCode, ErrorView};
use crate::error;
use crate::grpc;
use crate::grpc_unary::GrpcView;
use crate::headers;
use crate::laws::details;
use crate::laws::streams;
use crate::laws::timeouts;
use crate::laws;
use crate::protocol;
use crate::stream::StreamView;
use crate::stream;
use crate::text;
use crate::transport::ClientMode;
use crate::unary;

verus! {

/// The code of a gRPC status number; numbers without a code count as unknown.
pub open spec fn code_numbered(n: nat) -> ErrorCode {
    if n == 1 {
        ErrorCode::Canceled
    } else if n == 3 {
        ErrorCode::InvalidArgument
    } else if n == 4 {
        ErrorCode::DeadlineExceeded
    } else if n == 5 {
        ErrorCode::NotFound
    } else if n == 6 {
        ErrorCode::AlreadyExists
    } else if n == 7 {
        ErrorCode::PermissionDenied
    } else if n == 8 {
        ErrorCode::ResourceExhausted
    } else if n == 9 {
        ErrorCode::FailedPrecondition
    } else if n == 10 {
        ErrorCode::Aborted
    } else if n == 11 {
        ErrorCode::OutOfRange
    } else if n == 12 {
        ErrorCode::Unimplemented
    } else if n == 13 {
        ErrorCode::Internal
    } else if n == 14 {
        ErrorCode::Unavailable
    } else if n == 15 {
        ErrorCode::DataLoss
    } else if n == 16 {
        ErrorCode::Unauthenticated
    } else {
        ErrorCode::Unknown
    }
}

/// The name of a code in the Connect protocol: its words in lower case, joined
/// with underscores.
pub open spec fn name_of(c: ErrorCode) -> Seq<char> {
    if c == ErrorCode::Canceled {
        "canceled"@
    } else if c == ErrorCode::InvalidArgument {
        "invalid_argument"@
    } else if c == ErrorCode::DeadlineExceeded {
        "deadline_exceeded"@
    } else if c == ErrorCode::NotFound {
        "not_found"@
    } else if c == ErrorCode::AlreadyExists {
        "already_exists"@
    } else if c == ErrorCode::PermissionDenied {
        "permission_denied"@
    } else if c == ErrorCode::ResourceExhausted {
        "resource_exhausted"@
    } else if c == ErrorCode::FailedPrecondition {
        "failed_precondition"@
    } else if c == ErrorCode::Aborted {
        "aborted"@
    } else if c == ErrorCode::OutOfRange {
        "out_of_range"@
    } else if c == ErrorCode::Unimplemented {
        "unimplemented"@
    } else if c == ErrorCode::Internal {
        "internal"@
    } else if c == ErrorCode::Unavailable {
        "unavailable"@
    } else if c == ErrorCode::DataLoss {
        "data_loss"@
    } else if c == ErrorCode::Unauthenticated {
        "unauthenticated"@
    } else {
        "unknown"@
    }
}

/// Every code has its number and its name on the wire, and is found by either; no
/// other number or name stands for a code.
pub proof fn codes_on_the_wire(c: ErrorCode, n: u32, s: Seq<char>)
    ensures
        1 <= c.number() <= 16,
        code_numbered(c.number() as nat) == c,
        c.name() == name_of(c),
        ErrorCode::named(name_of(c)) == Some(c),
        1 <= n <= 16 ==> ErrorCode::numbered(n) == Some(code_numbered(n as nat)),
        n == 0 || n > 16 ==> ErrorCode::numbered(n) is None,
        ErrorCode::named(s) matches Some(d) ==> name_of(d) == s,
{
    ErrorCode::named_inverts_name(c);
    if 1 <= n <= 16 {
        let d = code_numbered(n as nat);
        assert(d.number() == n);
        ErrorCode::numbered_inverts_number(d);
    }
    if let Some(d) = ErrorCode::named(s) {
        assert(d.name() == s);
    }
}

/// An error is shown as the name of its code and, after a colon and a space, its
/// message.
pub proof fn errors_are_shown_with_their_code(e: ErrorView)
    ensures
        e.message matches Some(m) ==> e.display() == name_of(e.code) + seq![':', ' '] + m,
        e.message is None ==> e.display() == name_of(e.code),
{
    reveal_strlit(": ");
    assert(": "@ =~= seq![':', ' ']);
}

/// An HTTP status without anything else stands for a code: malformed requests
/// are the library's own fault, unknown paths are unimplemented, and what a
/// later try may get past is unavailable.
pub proof fn http_statuses_have_codes(status: u16)
    ensures
        ({
            let c = protocol::code_of_status(status);
            &&& c == ErrorCode::Internal <==> status == 400
            &&& c == ErrorCode::Unauthenticated <==> status == 401
            &&& c == ErrorCode::PermissionDenied <==> status == 403
            &&& c == ErrorCode::Unimplemented <==> status == 404
            &&& c == ErrorCode::DeadlineExceeded <==> status == 408
            &&& c == ErrorCode::Unavailable <==> status == 429 || status == 502 || status == 503
                || status == 504
            &&& c == ErrorCode::Unknown <==> !(status == 400 || status == 401 || status == 403
                || status == 404 || status == 408 || status == 429 || status == 502 || status == 503
                || status == 504)
        }),
        protocol::is_success_status(status) <==> status / 100 == 2,
{
}

/// The error for an HTTP status names the status.
pub proof fn http_errors_name_the_status(status: u16, body: Seq<u8>, said: Seq<char>)
    ensures
        unary::http_error(status).code == protocol::code_of_status(status),
        unary::http_error(status).message == Some(
            "HTTP error "@ + text::decimal(status as nat),
        ),
        unary::http_error_with_body(status, body).code == protocol::code_of_status(status),
        body == vstd::utf8::encode_utf8(said) ==> unary::http_error_with_body(status, body).message
            == Some("HTTP error "@ + text::decimal(status as nat) + ": "@ + said),
{
    vstd::utf8::encode_utf8_valid_utf8(said);
    vstd::utf8::encode_utf8_decode_utf8(said);
}

/// What a Connect server says of an error is the error of the call: the code that
/// it names, else the one for the HTTP status or, in a stream, unknown; its
/// message; and all its details in order. Nothing else is added.
pub proof fn described_errors_arrive(
    code: Option<Seq<char>>,
    message: Option<Seq<char>>,
    sent: Seq<error::DetailView>,
    otherwise: ErrorCode,
    c: ErrorCode,
)
    ensures
        ({
            let e = unary::described_error(
                unary::ErrorBodyView { code, message, details: sent },
                otherwise,
            );
            &&& code == Some(name_of(c)) ==> e.code == c
            &&& code is None ==> e.code == otherwise
            &&& (code matches Some(s) && forall|d: ErrorCode| #[trigger] name_of(d) != s)
                ==> e.code == otherwise
            &&& message matches Some(m) ==> e.message == Some(m)
            &&& message is None ==> e.message == Some(Seq::<char>::empty())
            &&& e.details == sent
            &&& e.response_headers == headers::no_headers()
            &&& e.trailers == headers::no_headers()
            &&& (end_stream::EndStreamView {
                error: Some(unary::ErrorBodyView { code, message, details: sent }),
                metadata: None,
            }).failure() == Some(
                unary::described_error(
                    unary::ErrorBodyView { code, message, details: sent },
                    ErrorCode::Unknown,
                ),
            )
        }),
{
    codes_on_the_wire(c, 0, Seq::empty());
    if let Some(s) = code {
        codes_on_the_wire(c, 0, s);
        if let Some(d) = ErrorCode::named(s) {
            assert(name_of(d) == s);
        }
    }
}

/// A status text is a number exactly when it is made of digits, after an optional
/// plus sign.
pub proof fn only_digits_are_a_status(s: Seq<char>)
    ensures
        text::parsed_u32(s) is Some ==> s.len() > 0 && (text::all_digits(s) || (s[0] == '+' && s.len()
            > 1 && text::all_digits(s.skip(1)))),
        s.len() == 0 ==> text::parsed_u32(s) is None,
{
}

/// Decimal digits are plain text.
proof fn decimal_is_plain(n: nat)
    ensures
        laws::is_plain(text::decimal(n)),
{
    timeouts::decimal_round_trip(n);
    let s = text::decimal(n);
    assert forall|i: int| 0 <= i < s.len() implies ' ' <= #[trigger] s[i] <= '~' by {
        assert('0' <= s[i] <= '9');
    }
}

/// A status in trailers is the number that the server wrote.
pub proof fn status_is_read(h: headers::Headers, n: u32)
    requires
        laws::says(h, "grpc-status"@, text::decimal(n as nat)),
    ensures
        grpc::status_of(h) == Some(Some(n)),
        n == 0 ==> grpc::error_in(h) is None,
        n != 0 ==> grpc::error_in(h) is Some && grpc::error_in(h)->Some_0.code == code_numbered(
            n as nat,
        ),
{
    decimal_is_plain(n as nat);
    timeouts::decimal_round_trip(n as nat);
    laws::plain_text_is_read(h, "grpc-status"@, text::decimal(n as nat));
    codes_on_the_wire(ErrorCode::Unknown, n, Seq::empty());
}

/// Trailers with a status that is no number are an error with the code unknown,
/// whatever else they say; trailers without a status report nothing.
pub proof fn malformed_status_is_an_error(h: headers::Headers, s: Seq<char>)
    requires
        laws::is_plain(s),
        laws::says(h, "grpc-status"@, s),
        !(s.len() > 0 && text::all_digits(s)),
        !(s.len() > 1 && s[0] == '+' && text::all_digits(s.skip(1))),
    ensures
        grpc::error_in(h) is Some,
        grpc::error_in(h)->Some_0.code == ErrorCode::Unknown,
{
    laws::plain_text_is_read(h, "grpc-status"@, s);
    only_digits_are_a_status(s);
}

/// The names in trailers that say how a call ended.
pub open spec fn is_about_the_status(n: Seq<char>) -> bool {
    n == "grpc-status"@ || n == "grpc-message"@ || n == "grpc-status-details-bin"@
}

/// Bytes without a percent sign are percent-decoded to themselves.
proof fn nothing_to_decode(b: Seq<u8>)
    requires
        !b.contains(37),
    ensures
        encoding::percent_decoded(b) == b,
    decreases b.len(),
{
    if b.len() > 0 {
        let rest = b.skip(1);
        assert(b.contains(b[0]));
        assert forall|x: u8| rest.contains(x) implies b.contains(x) by {
            let i = choose|i: int| 0 <= i < rest.len() && rest[i] == x;
            assert(b[i + 1] == x);
        }
        nothing_to_decode(rest);
        assert(seq![b[0]] + rest =~= b);
    }
}

/// Percent-encoded text is plain and is decoded to the text.
proof fn message_is_decoded(message: Seq<char>)
    ensures
        ({
            let wire = encoding::percent_encoded(vstd::utf8::encode_utf8(message));
            &&& laws::is_plain(wire)
            &&& encoding::utf8_text(
                encoding::percent_decoded(vstd::utf8::encode_utf8(wire)),
            ) == message
        }),
{
    let b = vstd::utf8::encode_utf8(message);
    let wire = encoding::percent_encoded(b);
    encoding::percent_decoding_inverts_encoding(b);
    assert forall|i: int| 0 <= i < wire.len() implies ' ' <= #[trigger] wire[i] <= '~' by {
        let c = wire[i];
        assert(c == '%' || '0' <= c <= '9' || 'A' <= c <= 'Z' || 'a' <= c <= 'z');
    }
    assert(vstd::utf8::is_ascii_chars(wire));
    vstd::utf8::is_ascii_chars_encode_utf8(wire);
    assert(vstd::utf8::encode_utf8(wire) =~= wire.map_values(|c: char| c as u8));
    vstd::utf8::encode_utf8_valid_utf8(message);
    vstd::utf8::encode_utf8_decode_utf8(message);
}

/// Base64 is plain text.
proof fn base64_is_plain(b: Seq<u8>)
    ensures
        laws::is_plain(encoding::standard_base64(b)),
        laws::is_plain(encoding::padded_base64(b)),
{
    let s = encoding::standard_base64(b);
    assert forall|i: int| 0 <= i < s.len() implies ' ' <= #[trigger] s[i] <= '~' by {
        assert(encoding::sextet(b, i) < 64);
    }
    let p = encoding::padded_base64(b);
    assert forall|i: int| 0 <= i < p.len() implies ' ' <= #[trigger] p[i] <= '~' by {
        if i < s.len() {
            assert(p[i] == s[i]);
        } else {
            assert(p[i] == '=');
        }
    }
}

/// The error that a gRPC server puts into its trailers is the error of the call:
/// the code of its status, its message, all its details in order, and all other
/// trailers as they came.
pub proof fn grpc_error_arrives(
    h: headers::Headers,
    status: u32,
    message: Seq<char>,
    code: nat,
    text_in_status: Seq<char>,
    sent: Seq<details::SentDetail>,
    sparse: bool,
    n: Seq<char>,
)
    requires
        status != 0,
        laws::says(h, "grpc-status"@, text::decimal(status as nat)),
        laws::says(
            h,
            "grpc-message"@,
            encoding::percent_encoded(vstd::utf8::encode_utf8(message)),
        ),
        code <= u64::MAX,
        details::status_bytes(code, text_in_status, sent, sparse).len() <= u64::MAX,
        forall|i: int| 0 <= i < sent.len() ==> !(#[trigger] sent[i]).name.contains('/'),
        laws::says(
            h,
            "grpc-status-details-bin"@,
            encoding::padded_base64(details::status_bytes(code, text_in_status, sent, sparse)),
        ) || laws::says(
            h,
            "grpc-status-details-bin"@,
            encoding::standard_base64(details::status_bytes(code, text_in_status, sent, sparse)),
        ),
    ensures
        grpc::error_in(h) is Some,
        ({
            let e = grpc::error_in(h)->Some_0;
            &&& e.code == code_numbered(status as nat)
            &&& e.message == Some(message)
            &&& e.details == sent.map_values(|d: details::SentDetail| d.seen())
            &&& e.trailers.dom().contains(n) <==> h.dom().contains(n) && !is_about_the_status(n)
            &&& e.trailers.dom().contains(n) ==> e.trailers[n] == h[n]
        }),
{
    let b = details::status_bytes(code, text_in_status, sent, sparse);
    status_is_read(h, status);
    message_is_decoded(message);
    laws::plain_text_is_read(
        h,
        "grpc-message"@,
        encoding::percent_encoded(vstd::utf8::encode_utf8(message)),
    );
    base64_is_plain(b);
    encoding::standard_decoding_inverts_encoding(b);
    if laws::says(h, "grpc-status-details-bin"@, encoding::padded_base64(b)) {
        laws::plain_text_is_read(h, "grpc-status-details-bin"@, encoding::padded_base64(b));
    } else {
        laws::plain_text_is_read(h, "grpc-status-details-bin"@, encoding::standard_base64(b));
    }
    details::details_arrive(code, text_in_status, sent, sparse);
}

/// A status without a message or without details is an error without them, and a
/// message that holds no percent sign is the message as it stands.
pub proof fn bare_grpc_error_arrives(h: headers::Headers, status: u32, message: Seq<char>)
    requires
        status != 0,
        laws::says(h, "grpc-status"@, text::decimal(status as nat)),
    ensures
        grpc::error_in(h) is Some,
        !h.dom().contains("grpc-message"@) ==> grpc::error_in(h)->Some_0.message == Some(
            Seq::<char>::empty(),
        ),
        laws::says(h, "grpc-message"@, message) && laws::is_plain(message) && !message.contains('%')
            ==> grpc::error_in(h)->Some_0.message == Some(message),
        !h.dom().contains("grpc-status-details-bin"@) ==> grpc::error_in(h)->Some_0.details.len()
            == 0,
        grpc::error_in(h)->Some_0.response_headers == headers::no_headers(),
{
    status_is_read(h, status);
    if laws::says(h, "grpc-message"@, message) && laws::is_plain(message) && !message.contains(
        '%',
    ) {
        laws::plain_text_is_read(h, "grpc-message"@, message);
        let b = vstd::utf8::encode_utf8(message);
        assert(vstd::utf8::is_ascii_chars(message));
        vstd::utf8::is_ascii_chars_encode_utf8(message);
        assert(!b.contains(37)) by {
            if b.contains(37) {
                let i = choose|i: int| 0 <= i < b.len() && b[i] == 37;
                assert(message[i] as u8 == 37);
                assert(message[i] == '%');
            }
        }
        nothing_to_decode(b);
        vstd::utf8::encode_utf8_valid_utf8(message);
        vstd::utf8::encode_utf8_decode_utf8(message);
    }
}

/// What goes wrong with a compressed payload has a code: one over the limit is
/// `resource_exhausted`, one that is malformed `invalid_argument`, and one in an
/// encoding that the client does not know `unimplemented`. When it came from the
/// server, the latter two are `data_loss` and `internal`.
pub proof fn decompression_errors_have_codes(
    registry: CompressionRegistry,
    encoding: Seq<char>,
    data: Seq<u8>,
    limit: usize,
)
    ensures
        match registry.decompressed(encoding, data, limit) {
            Ok(m) => laws::can_unpack(registry, encoding) && m.len() <= limit && (encoding
                == "identity"@ ==> m == data),
            Err(e) => if !laws::can_unpack(registry, encoding) {
                e.code == ErrorCode::Unimplemented && error::remapped(e).code
                    == ErrorCode::Internal
            } else {
                ||| e.code == ErrorCode::ResourceExhausted && error::remapped(e).code
                    == ErrorCode::ResourceExhausted
                ||| encoding != "identity"@ && e.code == ErrorCode::InvalidArgument
                    && error::remapped(e).code == ErrorCode::DataLoss
            },
        },
        encoding == "identity"@ && data.len() > limit ==> registry.decompressed(
            encoding,
            data,
            limit,
        ) == Err::<Seq<u8>, ErrorView>(compression::too_large(data.len(), limit as nat)),
        compression::too_large(data.len(), limit as nat).code == ErrorCode::ResourceExhausted,
{
}

/// What a client asks servers for, it can read; and it asks for all it knows but
/// `identity`, which goes without saying.
pub proof fn advertised_encodings_are_known(registry: CompressionRegistry, encoding: Seq<char>)
    ensures
        registry.knows(encoding) <==> registry.gzip && encoding == "gzip"@,
        registry.gzip ==> registry.advertised() == "gzip"@,
        !registry.gzip ==> registry.advertised().len() == 0,
{
}

/// A client refuses the other kind's scheme as an argument that is not valid.
pub proof fn wrong_schemes_are_invalid_arguments(mode: ClientMode, scheme: Option<Seq<char>>)
    ensures
        mode.refusal(scheme) matches Some(e) ==> e.code == ErrorCode::InvalidArgument,
        mode == ClientMode::Plaintext && scheme == Some("https"@) ==> mode.refusal(scheme) is Some,
        mode == ClientMode::Tls && scheme == Some("http"@) ==> mode.refusal(scheme) is Some,
        scheme is None ==> mode.refusal(scheme) is None,
{
}

/// The error of a Connect error response, with or without trailers: the code that
/// the body names, else the one for the HTTP status, with the message and the
/// details of the body; the status alone when the body describes no error. Either
/// way it carries the headers of the response.
pub proof fn error_bodies_are_errors(
    status: u16,
    h: headers::Headers,
    t: headers::Headers,
    body: Seq<u8>,
    said: Seq<char>,
    described: unary::ErrorBodyView,
    c: ErrorCode,
)
    ensures
        ({
            let a = unary::body_error(status, h, t, body, Some(described));
            let b = stream::body_error(status, h, Some(described));
            let x = unary::body_error(status, h, t, body, None);
            let y = stream::body_error(status, h, None);
            let by_status = streams::protocol_code(status);
            &&& described.code == Some(name_of(c)) ==> a.code == c && b.code == c
            &&& described.code is None ==> a.code == by_status && b.code == by_status
            &&& described.message matches Some(m) ==> a.message == Some(m) && b.message == Some(m)
            &&& a.details == described.details && b.details == described.details
            &&& x.code == by_status && y.code == by_status
            &&& y.message == Some("HTTP error "@ + text::decimal(status as nat))
            &&& body == vstd::utf8::encode_utf8(said) ==> x.message == Some(
                "HTTP error "@ + text::decimal(status as nat) + ": "@ + said,
            )
            &&& x.details.len() == 0 && y.details.len() == 0
            &&& a.response_headers == h && b.response_headers == h
            &&& x.response_headers == h && y.response_headers == h
            &&& a.trailers == t && x.trailers == t
        }),
{
    codes_on_the_wire(c, 0, Seq::empty());
    http_errors_name_the_status(status, body, said);
}

/// The errors of bodies that are too large or cannot be read have their codes.
pub proof fn body_errors_have_codes(limit: nat, cause: Seq<char>)
    ensures
        body::body_too_large(limit).code == ErrorCode::ResourceExhausted,
        body::body_too_large(limit).message == Some(
            "response body size exceeds limit "@ + text::decimal(limit),
        ),
        body::body_unreadable(cause).code == ErrorCode::Internal,
        body::body_unreadable(cause).message == Some("failed to read response body: "@ + cause),
{
}

/// The code of an error out of decompressing what a server sent.
pub open spec fn servers_fault(c: ErrorCode) -> ErrorCode {
    if c == ErrorCode::Unimplemented {
        ErrorCode::Internal
    } else if c == ErrorCode::InvalidArgument {
        ErrorCode::DataLoss
    } else {
        c
    }
}

/// A compressed payload from the server is decompressed with the encoding that the
/// response names and within the limit of messages, by every kind of response
/// alike; what goes wrong is the server's fault.
pub proof fn payloads_are_unpacked_alike(
    s: StreamView,
    g: GrpcView,
    registry: CompressionRegistry,
    encoding: Seq<char>,
    payload: Seq<u8>,
    limit: usize,
    flags: u8,
)
    requires
        flags % 2 == 1,
        s.compression == registry && s.encoding == Some(encoding) && streams::size_limit(
            s.max_message_size,
        ) == limit,
        g.compression == registry && g.encoding == Some(encoding) && streams::size_limit(
            g.max_message_size,
        ) == limit,
        encoding != "identity"@,
    ensures
        match registry.decompressed(encoding, payload, limit) {
            Ok(m) => {
                &&& s.opened(flags, payload) == Ok::<Seq<u8>, ErrorView>(m)
                &&& g.opened(flags, payload) == Ok::<Seq<u8>, ErrorView>(m)
                &&& client_stream::opened(flags, payload, registry, Some(encoding), limit) == Ok::<
                    Seq<u8>,
                    ErrorView,
                >(m)
            },
            Err(e) => {
                &&& s.opened(flags, payload) matches Err(x) && x.code == servers_fault(e.code)
                    && x.message == e.message
                &&& g.opened(flags, payload) == s.opened(flags, payload)
                &&& client_stream::opened(flags, payload, registry, Some(encoding), limit)
                    == s.opened(flags, payload)
            },
        },
        client_stream::opened(flags, payload, registry, None, limit) matches Err(x) && x.code
            == ErrorCode::Internal,
{
    laws::flags_are_bits(flags);
}

/// A payload that is not compressed is taken as it is.
pub proof fn plain_payloads_are_taken_as_they_are(
    s: StreamView,
    g: GrpcView,
    registry: CompressionRegistry,
    encoding: Option<Seq<char>>,
    payload: Seq<u8>,
    limit: usize,
    flags: u8,
)
    requires
        flags % 2 == 0,
    ensures
        s.opened(flags, payload) == Ok::<Seq<u8>, ErrorView>(payload),
        g.opened(flags, payload) == Ok::<Seq<u8>, ErrorView>(payload),
        client_stream::opened(flags, payload, registry, encoding, limit) == Ok::<
            Seq<u8>,
            ErrorView,
        >(payload),
{
    laws::flags_are_bits(flags);
}

/// What the errors of sizes, encodings, deadlines and streams say.
pub proof fn errors_say_what_happened(size: nat, limit: nat, encoding: Seq<char>)
    ensures
        compression::too_large(size, limit).message == Some(
            "message size "@ + text::decimal(size) + " exceeds limit "@ + text::decimal(limit),
        ),
        compression::too_large(size, limit).code == ErrorCode::ResourceExhausted,
        CompressionRegistry::inflated_too_large(limit).message == Some(
            "decompressed message size exceeds limit "@ + text::decimal(limit),
        ),
        CompressionRegistry::unknown_encoding(encoding).message == Some(
            "unsupported compression encoding: "@ + encoding,
        ),
        stream::deadline_error().message == Some("client-side deadline exceeded"@),
        stream::missing_end_stream().message == Some(
            "Connect streaming response ended without END_STREAM envelope"@,
        ),
        bidi::failed_state().message == Some("stream in failed state"@),
        bidi::failed_state().code == ErrorCode::Internal,
        unary::DecodeStage::Proto.complaint() == "failed to decode response: "@,
        unary::DecodeStage::Json.complaint() == "failed to decode JSON response: "@,
        unary::DecodeStage::Reencode.complaint() == "failed to re-encode for view: "@,
{
}

/// An error that gets headers, trailers, details or another code keeps all else.
pub proof fn errors_are_extended(
    e: ErrorView,
    h: headers::Headers,
    details: Seq<DetailView>,
    code: ErrorCode,
)
    ensures
        ({
            let a = e.with_response_headers(h);
            let b = e.with_trailers(h);
            let c = e.with_details(details);
            let d = e.with_code(code);
            &&& a.response_headers == h && a.code == e.code && a.message == e.message && a.details
                == e.details && a.trailers == e.trailers
            &&& b.trailers == h && b.code == e.code && b.message == e.message && b.details
                == e.details && b.response_headers == e.response_headers
            &&& c.details == details && c.code == e.code && c.message == e.message
                && c.response_headers == e.response_headers && c.trailers == e.trailers
            &&& d.code == code && d.message == e.message && d.details == e.details
                && d.response_headers == e.response_headers && d.trailers == e.trailers
        }),
{
}

/// The sizes that hold where nothing else was set: four mebibytes for a message,
/// 1024 bytes for compressing one.
pub proof fn sizes_have_defaults(options: OptionsView)
    ensures
        options.message_limit() == streams::size_limit(options.max_message_size),
        streams::size_limit(None) == 4 * 1024 * 1024,
        compression::DEFAULT_MIN_SIZE == 1024,
{
}

/// A status may have a plus sign before its digits.
pub proof fn status_may_have_a_plus_sign(n: u32)
    ensures
        text::parsed_u32(seq!['+'] + text::decimal(n as nat)) == Some(n),
{
    let digits = text::decimal(n as nat);
    timeouts::decimal_round_trip(n as nat);
    assert((seq!['+'] + digits).skip(1) =~= digits);
    assert(digits[0] != '+');
}

/// How a malformed status is shown: byte by byte between quotation marks, visible
/// characters and tabs as they are, quotation marks after a backslash, other bytes
/// in hexadecimal digits; nothing of it when it is to be kept out of logs.
pub proof fn malformed_status_is_quoted(a: Seq<u8>, c: u8)
    ensures
        grpc::debug_text((a, true)) == "Sensitive"@,
        grpc::debug_text((a, false)) == seq!['"'] + grpc::escaped(a) + seq!['"'],
        grpc::escaped(Seq::empty()) == Seq::<char>::empty(),
        c == 34 ==> grpc::escaped(a.push(c)) == grpc::escaped(a) + seq!['\\', '"'],
        c != 34 && (c == 9 || 32 <= c <= 126) ==> grpc::escaped(a.push(c)) == grpc::escaped(a).push(
            c as char,
        ),
        c == 127 ==> grpc::escaped(a.push(c)) == grpc::escaped(a) + seq!['\\', 'x', '7', 'f'],
        c == 255 ==> grpc::escaped(a.push(c)) == grpc::escaped(a) + seq!['\\', 'x', 'f', 'f'],
        c == 160 ==> grpc::escaped(a.push(c)) == grpc::escaped(a) + seq!['\\', 'x', 'a', '0'],
{
    assert(a.push(c).drop_last() =~= a);
    assert(a.push(c).last() == c);
    assert(127u8 / 16 == 7 && 127u8 % 16 == 15);
    assert(255u8 / 16 == 15 && 255u8 % 16 == 15);
    assert(160u8 / 16 == 10 && 160u8 % 16 == 0);
    assert('F' as u32 + 32 == 'f' as u32);
    assert('A' as u32 + 32 == 'a' as u32);
}

} // verus!
