//! Streaming responses from the head to the end, in each protocol, and the
//! bidirectional calls that read them.

use vstd::prelude::*;
use crate::bidi::{BidiStepView, BidiView, RecvView};
use crate::bidi;
use crate::body::EventView;
use crate::call::StreamingView;
use crate::call;
use crate::compression::CompressionRegistry;
use crate::config::{ConfigView, OptionsView};
use crate::end_stream::{EndStreamView, MetadataView};
use crate::end_stream;
use crate::envelope::EncoderView;
use crate::envelope;
use crate::error::{ErrorCode, ErrorView};
use crate::grpc;
use crate::headers;
use crate::laws::errors;
use crate::laws::requests;
use crate::laws;
use crate::protocol::{CodecFormat, Protocol};
use crate::stream::{EndView, StartView, StepView, StreamErrorOutcomeView, StreamView};
use crate::stream;
use crate::text;
use crate::unary;

verus! {

/// The most bytes of a message, four mebibytes unless the caller says otherwise.
pub open spec fn size_limit(max_message_size: Option<usize>) -> usize {
    match max_message_size {
        Some(n) => n,
        None => 4194304,
    }
}

/// The header that names the encoding of the messages of a response.
pub open spec fn encoding_header(protocol: Protocol) -> Seq<char> {
    if protocol == Protocol::Connect {
        "connect-content-encoding"@
    } else {
        "grpc-encoding"@
    }
}

/// Whether a stream is one of which nothing but the head has arrived.
pub open spec fn is_fresh(
    s: StreamView,
    h: headers::Headers,
    protocol: Protocol,
    registry: CompressionRegistry,
    codec_format: CodecFormat,
    max_message_size: Option<usize>,
) -> bool {
    &&& s.headers == h
    &&& s.protocol == protocol
    &&& s.compression == registry
    &&& s.codec_format == codec_format
    &&& s.max_message_size == max_message_size
    &&& s.buf.len() == 0
    &&& s.end is None
    &&& !s.saw_body_data
}

/// The limit of a stream, and the room that its buffer has beyond one envelope of
/// the largest size: for the header of the next and a trailer frame of 64 KiB.
pub proof fn buffer_holds_the_largest_message(s: StreamView)
    ensures
        s.limit() == size_limit(s.max_message_size),
        s.limit() + 10 + 65536 <= usize::MAX ==> s.buffer_limit() == s.limit() + 10 + 65536,
        s.limit() + 10 + 65536 > usize::MAX ==> s.buffer_limit() == usize::MAX,
{
}

/// A head with status 200 that reports no error gives a stream in the protocol of
/// the call, and the header of that protocol, and no other, tells the encoding of
/// its messages.
pub proof fn head_opens_a_stream(
    h: headers::Headers,
    protocol: Protocol,
    registry: CompressionRegistry,
    codec_format: CodecFormat,
    max_message_size: Option<usize>,
    encoding: Seq<char>,
)
    requires
        protocol != Protocol::Connect ==> grpc::error_in(h) is None,
        laws::is_plain(encoding),
    ensures
        stream::stream_start(
            200,
            h,
            protocol,
            registry,
            codec_format,
            max_message_size,
        ) matches StartView::Stream(s) && {
            &&& is_fresh(s, h, protocol, registry, codec_format, max_message_size)
            &&& laws::says(h, encoding_header(protocol), encoding) ==> s.encoding == Some(encoding)
            &&& !h.dom().contains(encoding_header(protocol)) ==> s.encoding is None
        },
{
    if laws::says(h, encoding_header(protocol), encoding) {
        laws::plain_text_is_read(h, encoding_header(protocol), encoding);
    }
}

/// The encodings that a client can read have plain names.
proof fn encodings_are_plain(registry: CompressionRegistry, encoding: Seq<char>)
    requires
        laws::can_unpack(registry, encoding),
    ensures
        laws::is_plain(encoding),
{
    reveal_strlit("gzip");
    reveal_strlit("identity");
}

/// From the head to the message: in each protocol, when the head names an
/// encoding that the client knows, an envelope that a server made with it, its
/// message compressed or not, gives exactly that message, and what follows stays.
pub proof fn sent_message_is_read(
    h: headers::Headers,
    protocol: Protocol,
    registry: CompressionRegistry,
    codec_format: CodecFormat,
    max_message_size: Option<usize>,
    encoder: EncoderView,
    encoding: Seq<char>,
    message: Seq<u8>,
    sent: Seq<u8>,
    rest: Seq<u8>,
    read: Option<headers::Headers>,
    deadline_passed: bool,
)
    requires
        protocol != Protocol::Connect ==> grpc::error_in(h) is None,
        laws::says(h, encoding_header(protocol), encoding),
        laws::can_unpack(registry, encoding),
        encoder.compression == Some((registry, encoding)),
        encoder.encodes(message, Ok(sent)),
        message.len() <= size_limit(max_message_size),
        sent.len() <= 5 + size_limit(max_message_size),
    ensures
        stream::stream_start(
            200,
            h,
            protocol,
            registry,
            codec_format,
            max_message_size,
        ) matches StartView::Stream(s) && {
            let full = StreamView { buf: sent + rest, saw_body_data: true, ..s };
            let left = StreamView { buf: rest, saw_body_data: true, ..s };
            &&& full.stepped(read, deadline_passed) == (left, StepView::Message(message))
            &&& sent.len() <= usize::MAX ==> s.fed(EventView::Data(sent), read, deadline_passed)
                == (StreamView {
                buf: sent,
                saw_body_data: true,
                ..s
            })
        },
{
    encodings_are_plain(registry, encoding);
    head_opens_a_stream(h, protocol, registry, codec_format, max_message_size, encoding);
    let s = stream::stream_start(
        200,
        h,
        protocol,
        registry,
        codec_format,
        max_message_size,
    )->Stream_0;
    let full = StreamView { buf: sent + rest, saw_body_data: true, ..s };
    full.sent_message_arrives(encoder, message, sent, rest, read, deadline_passed);
    let payload = choose|payload: Seq<u8>|
        #![trigger encoder.carries(message, payload)]
        encoder.carries(message, payload) && payload.len() <= u32::MAX && sent == envelope::framed(
            encoder.flags_for(message.len()),
            payload,
        );
    assert(sent.len() > 0);
    assert(s.buf + sent =~= sent);
}

/// An envelope whose flags say that it is compressed is an error when the head
/// names no encoding, and is never handed out as it is.
pub proof fn compressed_message_needs_an_encoding(
    s: StreamView,
    flags: u8,
    payload: Seq<u8>,
    read: Option<headers::Headers>,
    deadline_passed: bool,
)
    requires
        s.end is None,
        s.encoding is None,
        flags == 1 || flags == 3,
        s.buf == envelope::framed(flags, payload),
        payload.len() <= s.limit(),
        payload.len() <= u32::MAX,
    ensures
        s.stepped(read, deadline_passed).1 matches StepView::Ended(Err(e)) && e.code
            == ErrorCode::Internal,
{
    laws::flags_are_bits(flags);
    assert(s.buf + Seq::<u8>::empty() =~= s.buf);
    envelope::take_inverts_framing(flags, payload, Seq::empty(), s.limit());
    assert(s.buf[0] == flags);
}

/// A message over the limit ends the stream with `resource_exhausted`, before its
/// payload has arrived.
pub proof fn large_message_ends_the_stream(
    s: StreamView,
    flags: u8,
    payload: Seq<u8>,
    n: int,
    read: Option<headers::Headers>,
    deadline_passed: bool,
)
    requires
        s.end is None,
        flags < 128,
        size_limit(s.max_message_size) < payload.len() <= u32::MAX,
        5 <= n <= 5 + payload.len(),
        s.buf == envelope::framed(flags, payload).take(n),
    ensures
        s.stepped(read, deadline_passed).1 matches StepView::Ended(Err(e)) && e.code
            == ErrorCode::ResourceExhausted,
{
    laws::flags_are_bits(flags);
    laws::framing_makes_an_envelope(flags, payload);
    laws::envelopes_are_taken_one_by_one(
        envelope::framed(flags, payload),
        flags,
        payload,
        Seq::empty(),
        s.limit(),
        n,
    );
    assert(s.buf[0] == flags);
}

/// Trailers end a gRPC or gRPC-Web stream: cleanly with status zero, else with the
/// error for their status; either way they are there to be read.
pub proof fn trailers_end_the_stream(
    s: StreamView,
    t: headers::Headers,
    status: u32,
    read: Option<headers::Headers>,
    deadline_passed: bool,
)
    requires
        s.end is None,
        s.protocol != Protocol::Connect,
        laws::says(t, "grpc-status"@, text::decimal(status as nat)),
    ensures
        ({
            let next = s.fed(EventView::Trailers(t), read, deadline_passed);
            &&& next.end matches Some(end) && end.trailers == Some(t)
            &&& status == 0 ==> next.stepped(read, deadline_passed) == (next, StepView::Ended(
                Ok(()),
            ))
            &&& status != 0 ==> next.stepped(read, deadline_passed).1 == StepView::Ended(
                Err(grpc::error_in(t)->Some_0),
            ) && grpc::error_in(t)->Some_0.code == errors::code_numbered(status as nat)
        }),
{
    errors::status_is_read(t, status);
}

/// A stream of gRPC or gRPC-Web whose body ends without any status was cut off: an
/// error, `deadline_exceeded` when the deadline has passed and `internal` else.
/// Only a response without any body may have its status in the headers.
pub proof fn end_without_status_is_an_error(
    s: StreamView,
    read: Option<headers::Headers>,
    deadline_passed: bool,
)
    requires
        s.end is None,
        s.protocol != Protocol::Connect,
        s.saw_body_data || !s.headers.dom().contains("grpc-status"@),
        !(s.protocol == Protocol::GrpcWeb && s.buf.len() > 0 && s.buf[0] >= 128),
    ensures
        s.fed(EventView::Eof, read, deadline_passed).end matches Some(end) && {
            &&& end.outcome matches Err(e) && e.code == if deadline_passed {
                ErrorCode::DeadlineExceeded
            } else {
                ErrorCode::Internal
            }
            &&& end.trailers is None
        },
{
    if s.buf.len() > 0 {
        laws::flags_are_bits(s.buf[0]);
    }
}

/// A response that has only headers, with status zero, is a clean end.
pub proof fn status_in_headers_ends_an_empty_stream(
    h: headers::Headers,
    protocol: Protocol,
    registry: CompressionRegistry,
    codec_format: CodecFormat,
    max_message_size: Option<usize>,
    read: Option<headers::Headers>,
    deadline_passed: bool,
    status: u32,
)
    requires
        protocol != Protocol::Connect,
        laws::says(h, "grpc-status"@, text::decimal(status as nat)),
    ensures
        status != 0 ==> (stream::stream_start(
            200,
            h,
            protocol,
            registry,
            codec_format,
            max_message_size,
        ) matches StartView::Failed(e) && e.code == errors::code_numbered(status as nat)
            && e.response_headers == h),
        status == 0 ==> (stream::stream_start(
            200,
            h,
            protocol,
            registry,
            codec_format,
            max_message_size,
        ) matches StartView::Stream(s) && s.fed(EventView::Eof, read, deadline_passed).end == Some(
            EndView { outcome: Ok(()), trailers: None },
        )),
{
    errors::status_is_read(h, status);
}

/// A Connect stream ends with what its END_STREAM envelope says: the contents are
/// handed out, and then the error in them, if any, is the error of the stream and
/// their trailers are its trailers. HTTP trailers mean nothing, and a body that
/// ends without the envelope is an error.
pub proof fn end_stream_ends_a_connect_stream(
    s: StreamView,
    contents: Seq<u8>,
    rest: Seq<u8>,
    e: EndStreamView,
    t: headers::Headers,
    read: Option<headers::Headers>,
    deadline_passed: bool,
)
    requires
        s.end is None,
        s.protocol == Protocol::Connect,
        contents.len() <= s.limit(),
        contents.len() <= u32::MAX,
    ensures
        (StreamView { buf: envelope::framed(2, contents) + rest, ..s }).stepped(
            read,
            deadline_passed,
        ).1 == StepView::EndStream(contents),
        ({
            let next = s.ended_once(StreamView::end_stream_end(e));
            let step = next.stepped(read, deadline_passed).1;
            &&& e.error is None ==> step == StepView::Ended(Ok(()))
            &&& e.error matches Some(x) ==> step == StepView::Ended(
                Err(unary::described_error(x, ErrorCode::Unknown)),
            )
            &&& next.end->Some_0.trailers == match e.metadata {
                Some(m) => Some(end_stream::end_trailers(m)),
                None => None,
            }
        }),
        s.fed(EventView::Trailers(t), read, deadline_passed) == s,
        s.fed(EventView::Eof, read, deadline_passed).end matches Some(end) && (end.outcome matches Err(
            x,
        ) && x.code == ErrorCode::Internal),
{
    let full = StreamView { buf: envelope::framed(2, contents) + rest, ..s };
    full.end_stream_arrives(contents, rest, read, deadline_passed);
}

/// The values that entries give to a header.
pub open spec fn values_given(m: MetadataView, name: Seq<char>) -> Seq<Seq<char>>
    decreases m.len(),
{
    if m.len() == 0 {
        Seq::empty()
    } else if m.last().0 == name {
        values_given(m.drop_last(), name) + m.last().1
    } else {
        values_given(m.drop_last(), name)
    }
}

/// Whether entries can all be headers: names in lower case, values of plain text.
pub open spec fn are_headers(m: MetadataView) -> bool {
    forall|i: int|
        0 <= i < m.len() ==> headers::is_canonical_name((#[trigger] m[i]).0) && forall|k: int|
            0 <= k < m[i].1.len() ==> laws::is_plain(#[trigger] m[i].1[k])
}

/// Plain text can be the value of a header.
proof fn plain_is_value(s: Seq<char>)
    requires
        laws::is_plain(s),
    ensures
        headers::is_header_value(vstd::utf8::encode_utf8(s)),
{
    assert(vstd::utf8::is_ascii_chars(s));
    vstd::utf8::is_ascii_chars_encode_utf8(s);
}

/// One entry gives its values, in order.
proof fn entry_gives_values(name: Seq<char>, values: Seq<Seq<char>>)
    requires
        headers::is_canonical_name(name),
        forall|k: int| 0 <= k < values.len() ==> laws::is_plain(#[trigger] values[k]),
    ensures
        end_stream::entry_fields(name, values) == values.map_values(
            |v: Seq<char>| (name, (vstd::utf8::encode_utf8(v), false)),
        ),
    decreases values.len(),
{
    let f = |v: Seq<char>| (name, (vstd::utf8::encode_utf8(v), false));
    if values.len() > 0 {
        let shorter = values.drop_last();
        assert forall|k: int| 0 <= k < shorter.len() implies laws::is_plain(
            #[trigger] shorter[k],
        ) by {
            assert(laws::is_plain(values[k]));
        }
        entry_gives_values(name, shorter);
        assert(laws::is_plain(values[values.len() - 1]));
        plain_is_value(values.last());
        assert(values.map_values(f) =~= shorter.map_values(f).push(f(values.last())));
    } else {
        assert(values.map_values(f) =~= Seq::empty());
    }
}

/// Adding the fields of one name to some headers.
proof fn fields_of_one_name(
    h: headers::Headers,
    before: Seq<(Seq<char>, (Seq<u8>, bool))>,
    name: Seq<char>,
    values: Seq<Seq<char>>,
    n: Seq<char>,
)
    ensures
        ({
            let f = |v: Seq<char>| (name, (vstd::utf8::encode_utf8(v), false));
            let g = |v: Seq<char>| (vstd::utf8::encode_utf8(v), false);
            let start = headers::with_fields(h, before);
            let all = headers::with_fields(h, before + values.map_values(f));
            &&& n != name ==> headers::values_of(all, n) == headers::values_of(start, n)
                && all.dom().contains(n) == start.dom().contains(n)
            &&& headers::values_of(all, name) == headers::values_of(start, name)
                + values.map_values(g)
            &&& all.dom().contains(name) == (start.dom().contains(name) || values.len() > 0)
        }),
    decreases values.len(),
{
    let f = |v: Seq<char>| (name, (vstd::utf8::encode_utf8(v), false));
    let g = |v: Seq<char>| (vstd::utf8::encode_utf8(v), false);
    let start = headers::with_fields(h, before);
    let fields = before + values.map_values(f);
    if values.len() == 0 {
        assert(fields =~= before);
        assert(headers::values_of(start, name) + values.map_values(g) =~= headers::values_of(
            start,
            name,
        ));
    } else {
        let shorter = values.drop_last();
        fields_of_one_name(h, before, name, shorter, n);
        assert(fields.drop_last() =~= before + shorter.map_values(f));
        assert(fields.last() == f(values.last()));
        let part = headers::with_fields(h, before + shorter.map_values(f));
        assert((headers::values_of(start, name) + shorter.map_values(g)).push(g(values.last()))
            =~= headers::values_of(start, name) + values.map_values(g));
    }
}

/// The trailers of an END_STREAM envelope arrive: under each name all the values
/// sent for it, in order, and no other name.
pub proof fn end_stream_trailers_arrive(m: MetadataView, n: Seq<char>)
    requires
        are_headers(m),
    ensures
        headers::values_of(end_stream::end_trailers(m), n) == values_given(m, n).map_values(
            |v: Seq<char>| (vstd::utf8::encode_utf8(v), false),
        ),
        end_stream::end_trailers(m).dom().contains(n) <==> values_given(m, n).len() > 0,
    decreases m.len(),
{
    let g = |v: Seq<char>| (vstd::utf8::encode_utf8(v), false);
    let given = values_given(m, n);
    if m.len() == 0 {
        assert(given.map_values(g) =~= Seq::empty());
    } else {
        let shorter = m.drop_last();
        let last = m[m.len() - 1];
        assert forall|i: int| 0 <= i < shorter.len() implies headers::is_canonical_name(
            (#[trigger] shorter[i]).0,
        ) && forall|k: int|
            0 <= k < shorter[i].1.len() ==> laws::is_plain(#[trigger] shorter[i].1[k]) by {
            assert(headers::is_canonical_name(m[i].0));
        }
        end_stream_trailers_arrive(shorter, n);
        assert(headers::is_canonical_name(last.0));
        entry_gives_values(last.0, last.1);
        fields_of_one_name(
            headers::no_headers(),
            end_stream::metadata_fields(shorter),
            last.0,
            last.1,
            n,
        );
        if last.0 == n {
            assert(given.map_values(g) =~= values_given(shorter, n).map_values(g)
                + last.1.map_values(g));
        }
    }
}

/// An HTTP status other than 200 is an error in each protocol. In gRPC and
/// gRPC-Web it is that of the status, unless the headers report another; in
/// Connect the body, decompressed as `content-encoding` says, describes it, and
/// the status stands for it where the body cannot be read.
pub proof fn other_statuses_are_errors(
    status: u16,
    h: headers::Headers,
    protocol: Protocol,
    registry: CompressionRegistry,
    codec_format: CodecFormat,
    max_message_size: Option<usize>,
    body: Seq<u8>,
    encoding: Seq<char>,
    packed: Seq<u8>,
)
    requires
        status != 200,
        laws::can_unpack(registry, encoding),
        registry.is_packed(encoding, body, packed),
        body.len() <= size_limit(max_message_size),
    ensures
        ({
            let start = stream::stream_start(
                status,
                h,
                protocol,
                registry,
                codec_format,
                max_message_size,
            );
            &&& protocol != Protocol::Connect ==> (start matches StartView::Failed(e) && {
                &&& e.response_headers == h
                &&& grpc::error_in(h) is None ==> e.code == protocol_code(status)
                &&& grpc::error_in(h) matches Some(x) ==> e.code == x.code && e.message
                    == x.message && e.details == x.details
            })
            &&& protocol == Protocol::Connect ==> (start matches StartView::ErrorResponse(r) && {
                let seen = StreamErrorOutcomeView::Body { status, headers: h, body };
                &&& r.limit == size_limit(max_message_size)
                &&& !h.dom().contains("content-encoding"@) ==> r.finished(Ok(body)) == seen
                &&& laws::says(h, "content-encoding"@, encoding) ==> r.finished(Ok(packed)) == seen
                &&& forall|x: ErrorView|
                    (#[trigger] r.finished(Err(x))) == StreamErrorOutcomeView::Failed(x)
                &&& forall|x: ErrorView|
                    (#[trigger] r.concluded(Err(x))) matches StreamErrorOutcomeView::Failed(e)
                        && e.code == protocol_code(status) && e.response_headers == h
            })
        }),
{
    encodings_are_plain(registry, encoding);
    if laws::says(h, "content-encoding"@, encoding) {
        laws::plain_text_is_read(h, "content-encoding"@, encoding);
    }
    registry.decompression_inverts_compression(
        encoding,
        body,
        packed,
        size_limit(max_message_size),
    );
}

/// The code for an HTTP status.
pub open spec fn protocol_code(status: u16) -> ErrorCode {
    if status == 400 {
        ErrorCode::Internal
    } else if status == 401 {
        ErrorCode::Unauthenticated
    } else if status == 403 {
        ErrorCode::PermissionDenied
    } else if status == 404 {
        ErrorCode::Unimplemented
    } else if status == 408 {
        ErrorCode::DeadlineExceeded
    } else if status == 429 || status == 502 || status == 503 || status == 504 {
        ErrorCode::Unavailable
    } else {
        ErrorCode::Unknown
    }
}

/// Some trailers as a gRPC-Web server writes them: a frame with the flag for
/// trailers, and a line for each.
pub open spec fn web_trailers(fields: Seq<(Seq<char>, Seq<char>)>) -> Seq<u8> {
    envelope::framed(128, vstd::utf8::encode_utf8(grpc::trailer_block(fields)))
}

/// Some trailers as headers.
pub open spec fn as_headers(fields: Seq<(Seq<char>, Seq<char>)>) -> headers::Headers {
    headers::with_fields(
        headers::no_headers(),
        fields.map_values(
            |f: (Seq<char>, Seq<char>)| (f.0, (vstd::utf8::encode_utf8(f.1), false)),
        ),
    )
}

/// A line of a trailer block is a name, a colon, the value, a carriage return and
/// a line feed.
pub proof fn trailer_lines_are_written_out(name: Seq<char>, value: Seq<char>)
    ensures
        grpc::trailer_block(seq![(name, value)]) == name + seq![':'] + value + seq!['\r', '\n'],
{
    let fields = seq![(name, value)];
    assert(fields.drop_last() =~= Seq::empty());
    reveal_with_fuel(grpc::trailer_block, 2);
    assert(grpc::trailer_block(fields) =~= name + seq![':'] + value + seq!['\r', '\n']);
}

/// What a gRPC-Web server writes into its trailer frame, the client reads out of
/// it, whatever follows and whether or not the stream names an encoding.
pub proof fn web_trailers_are_read(
    fields: Seq<(Seq<char>, Seq<char>)>,
    rest: Seq<u8>,
    compression: Option<(CompressionRegistry, Seq<char>)>,
)
    requires
        forall|i: int| 0 <= i < fields.len() ==> grpc::is_line_field(#[trigger] fields[i]),
        vstd::utf8::encode_utf8(grpc::trailer_block(fields)).len() <= 1024 * 1024,
    ensures
        web_trailers(fields).len() >= 5,
        web_trailers(fields)[0] == 128,
        envelope::length_at(web_trailers(fields) + rest, 0) + 5 == web_trailers(fields).len(),
        grpc::frame_trailers(web_trailers(fields) + rest, compression) == Some(as_headers(fields)),
{
    let block = grpc::trailer_block(fields);
    let payload = vstd::utf8::encode_utf8(block);
    let frame = web_trailers(fields);
    laws::flags_are_bits(128);
    assert(frame + rest =~= seq![128u8] + envelope::length_bytes(payload.len()) + (payload + rest));
    envelope::length_bytes_round_trip(payload.len(), 128, payload + rest);
    assert((frame + rest).subrange(5, 5 + payload.len() as int) =~= payload);
    assert((frame + rest)[0] == 128);
    vstd::utf8::encode_utf8_valid_utf8(block);
    vstd::utf8::encode_utf8_decode_utf8(block);
    grpc::trailer_block_round_trip(fields);
}

/// A gRPC-Web stream ends with its trailer frame: cleanly with status zero, else
/// with the error for the status, and the trailers of the frame are there to be
/// read. Nothing after the frame is looked at.
pub proof fn web_trailers_end_the_stream(
    s: StreamView,
    fields: Seq<(Seq<char>, Seq<char>)>,
    rest: Seq<u8>,
    status: u32,
    deadline_passed: bool,
    r: (StreamView, StepView),
)
    requires
        s.end is None,
        s.protocol == Protocol::GrpcWeb,
        s.buf == web_trailers(fields) + rest,
        forall|i: int| 0 <= i < fields.len() ==> grpc::is_line_field(#[trigger] fields[i]),
        vstd::utf8::encode_utf8(grpc::trailer_block(fields)).len() <= 1024 * 1024,
        headers::has_room(as_headers(fields)),
        laws::says(as_headers(fields), "grpc-status"@, text::decimal(status as nat)),
        s.can_step(deadline_passed, r),
    ensures
        r.0.end matches Some(end) && end.trailers == Some(as_headers(fields)),
        status == 0 ==> r.1 == StepView::Ended(Ok(())),
        status != 0 ==> r.1 == StepView::Ended(Err(grpc::error_in(as_headers(fields))->Some_0))
            && grpc::error_in(as_headers(fields))->Some_0.code == errors::code_numbered(
            status as nat,
        ),
{
    let t = as_headers(fields);
    web_trailers_are_read(fields, rest, s.decompression());
    errors::status_is_read(t, status);
    laws::flags_are_bits(128);
    assert(s.buf[0] == web_trailers(fields)[0]);
    let read = choose|read: Option<headers::Headers>| #[trigger]
        s.can_read(read) && r == s.stepped(read, deadline_passed);
    assert(read == Some(t));
}

/// The response of a bidirectional call is read in the protocol, with the codec,
/// the compressions and the limit of the call.
pub proof fn bidi_response_is_read_in_the_calls_protocol(
    config: ConfigView,
    service: Seq<char>,
    method: Seq<char>,
    options: OptionsView,
    call: StreamingView,
    h: headers::Headers,
    encoding: Seq<char>,
)
    requires
        call::streaming_call(config, service, method, options) == Ok::<StreamingView, ErrorView>(
            call,
        ),
        config.protocol != Protocol::Connect ==> grpc::error_in(h) is None,
        laws::is_plain(encoding),
    ensures
        ({
            let opened = bidi::opened(call, config);
            let (next, error_response) = opened.answered(Ok((200, h)));
            &&& opened.send_open
            &&& opened.recv is Pending
            &&& opened.construct_err is None
            &&& opened.encoder == call.encoder
            &&& error_response is None
            &&& next == (BidiView { recv: next.recv, ..opened })
            &&& next.recv matches RecvView::Ready(s) && {
                &&& is_fresh(
                    s,
                    h,
                    config.protocol,
                    config.compression,
                    config.codec_format,
                    if options.max_message_size is Some {
                        options.max_message_size
                    } else {
                        config.default_max_message_size
                    },
                )
                &&& laws::says(h, encoding_header(config.protocol), encoding) ==> s.encoding
                    == Some(encoding)
                &&& !h.dom().contains(encoding_header(config.protocol)) ==> s.encoding is None
            }
        }),
{
    requests::call_options_win(config, options);
    head_opens_a_stream(
        h,
        config.protocol,
        config.compression,
        config.codec_format,
        call.options.max_message_size,
        encoding,
    );
}

/// A whole bidirectional conversation: the message of a response body comes out,
/// and then the end that the protocol gives it. In gRPC and gRPC-Web that is the
/// status in the trailers; in Connect the END_STREAM envelope.
pub proof fn bidi_conversation(
    config: ConfigView,
    service: Seq<char>,
    method: Seq<char>,
    options: OptionsView,
    call: StreamingView,
    h: headers::Headers,
    message: Seq<u8>,
    t: headers::Headers,
    contents: Seq<u8>,
    e: EndStreamView,
    read: Option<headers::Headers>,
    deadline_passed: bool,
)
    requires
        call::streaming_call(config, service, method, options) == Ok::<StreamingView, ErrorView>(
            call,
        ),
        config.protocol != Protocol::Connect ==> grpc::error_in(h) is None,
        message.len() <= size_limit(call.options.max_message_size),
        message.len() + 5 <= u32::MAX,
        contents.len() <= size_limit(call.options.max_message_size),
        contents.len() <= u32::MAX,
        laws::says(t, "grpc-status"@, text::decimal(0)),
    ensures
        ({
            let b0 = bidi::opened(call, config).answered(Ok((200, h))).0;
            let s0 = b0.recv->Ready_0;
            let s1 = s0.fed(EventView::Data(envelope::framed(0, message)), read, deadline_passed);
            let b1 = BidiView { recv: RecvView::Ready(s1), ..b0 };
            let (b2, step) = b1.stepped(read, deadline_passed);
            &&& b0.recv is Ready
            &&& step == BidiStepView::Stream(StepView::Message(message))
            &&& b2.stepped(read, deadline_passed) == (b2, BidiStepView::Stream(StepView::NeedBody))
            &&& config.protocol != Protocol::Connect ==> {
                let s3 = b2.recv->Ready_0.fed(EventView::Trailers(t), read, deadline_passed);
                let b3 = BidiView { recv: RecvView::Ready(s3), ..b2 };
                &&& b3.stepped(read, deadline_passed).1 == BidiStepView::Stream(
                    StepView::Ended(Ok(())),
                )
                &&& s3.end->Some_0.trailers == Some(t)
            }
            &&& config.protocol == Protocol::Connect ==> {
                let s3 = StreamView {
                    buf: envelope::framed(2, contents),
                    ..b2.recv->Ready_0
                };
                let b3 = BidiView { recv: RecvView::Ready(s3), ..b2 };
                let s4 = s3.ended_once(StreamView::end_stream_end(e));
                let b4 = BidiView { recv: RecvView::Ready(s4), ..b2 };
                &&& b3.stepped(read, deadline_passed).1 == BidiStepView::Stream(
                    StepView::EndStream(contents),
                )
                &&& e.error is None ==> b4.stepped(read, deadline_passed).1
                    == BidiStepView::Stream(StepView::Ended(Ok(())))
                &&& e.error is Some ==> b4.stepped(read, deadline_passed).1
                    == BidiStepView::Stream(
                    StepView::Ended(
                        Err(unary::described_error(e.error->Some_0, ErrorCode::Unknown)),
                    ),
                )
            }
        }),
{
    bidi_response_is_read_in_the_calls_protocol(
        config,
        service,
        method,
        options,
        call,
        h,
        Seq::empty(),
    );
    let b0 = bidi::opened(call, config).answered(Ok((200, h))).0;
    let s0 = b0.recv->Ready_0;
    let sent = envelope::framed(0, message);
    let s1 = s0.fed(EventView::Data(sent), read, deadline_passed);
    buffer_holds_the_largest_message(s0);
    assert(s0.buf + sent =~= sent);
    assert(sent.len() == 5 + message.len());
    assert(s1.buf =~= sent + Seq::<u8>::empty());
    s1.plain_message_arrives(message, Seq::empty(), read, deadline_passed);
    let s2 = s1.stepped(read, deadline_passed).0;
    if config.protocol != Protocol::Connect {
        trailers_end_the_stream(s2, t, 0, read, deadline_passed);
    } else {
        end_stream_ends_a_connect_stream(
            s2,
            contents,
            Seq::empty(),
            e,
            t,
            read,
            deadline_passed,
        );
        assert(envelope::framed(2, contents) + Seq::<u8>::empty() =~= envelope::framed(
            2,
            contents,
        ));
    }
}

/// A request that failed, or whose response is an error, leaves nothing to read,
/// and every call reports that error.
pub proof fn bidi_failure_is_reported(
    b: BidiView,
    e: ErrorView,
    status: u16,
    h: headers::Headers,
    read: Option<headers::Headers>,
    deadline_passed: bool,
)
    requires
        b.recv is Pending,
        b.construct_err is None,
        status != 200,
    ensures
        b.stepped(read, deadline_passed) == (b, BidiStepView::NeedResponse),
        b.answered(Err(e)).0.stepped(read, deadline_passed).1 == BidiStepView::Failed(e),
        b.answered(Err(e)).1 is None,
        b.failed(e).stepped(read, deadline_passed).1 == BidiStepView::Failed(e),
        b.stream_config.protocol == Protocol::Connect ==> b.answered(Ok((status, h))).1 is Some,
        b.stream_config.protocol != Protocol::Connect ==> (b.answered(Ok((status, h))).0.stepped(
            read,
            deadline_passed,
        ).1 matches BidiStepView::Failed(x) && x.response_headers == h),
        !(b.answered(Ok((status, h))).0.recv is Ready),
        b.answered(Ok((status, h))).0.stepped(read, deadline_passed).1 is Failed,
{
}

/// A message is sent while sending is open and the deadline has not passed: as the
/// envelope that the call's encoder makes. Past the deadline it is refused with
/// `deadline_exceeded`, after closing with `internal`, and a message that could not
/// be encoded with its own error.
pub proof fn bidi_sends_while_open(
    b: BidiView,
    message: Seq<u8>,
    e: ErrorView,
    r: Result<Seq<u8>, ErrorView>,
)
    ensures
        b.send_open && b.sends(Ok(message), false, r) ==> b.encoder.encodes(message, r),
        b.send_open && b.sends(Err(e), false, r) ==> r == Err::<Seq<u8>, ErrorView>(e),
        b.sends(Ok(message), true, r) ==> r is Err && r->Err_0.code == ErrorCode::DeadlineExceeded,
        !b.send_open && b.sends(Ok(message), false, r) ==> r is Err && r->Err_0.code
            == ErrorCode::Internal,
{
}

/// The errors of deadlines and of streams that were cut off have their codes.
pub proof fn stream_errors_have_codes(s: StreamView, cause: Seq<char>, d: Seq<u8>, read: Option<
    headers::Headers,
>, deadline_passed: bool)
    requires
        s.end is None,
    ensures
        stream::deadline_error().code == ErrorCode::DeadlineExceeded,
        stream::missing_end_stream().code == ErrorCode::Internal,
        s.fed(EventView::Error(cause), read, deadline_passed).end matches Some(end) && (
        end.outcome matches Err(e) && e.code == ErrorCode::Internal),
        s.buf.len() + d.len() > s.buffer_limit() ==> (s.fed(
            EventView::Data(d),
            read,
            deadline_passed,
        ).end matches Some(end) && (end.outcome matches Err(e) && e.code
            == ErrorCode::ResourceExhausted)),
        s.buf.len() + d.len() <= s.buffer_limit() ==> s.fed(
            EventView::Data(d),
            read,
            deadline_passed,
        ) == (StreamView {
            buf: s.buf + d,
            saw_body_data: s.saw_body_data || d.len() > 0,
            ..s
        }),
{
}

/// A stream whose next envelope, or whose trailer frame in gRPC-Web, has arrived in
/// part waits for more, and nothing of it is lost.
pub proof fn incomplete_envelope_waits(
    s: StreamView,
    flags: u8,
    payload: Seq<u8>,
    n: int,
    read: Option<headers::Headers>,
    deadline_passed: bool,
)
    requires
        s.end is None,
        payload.len() <= u32::MAX,
        0 <= n < 5 + payload.len(),
        s.buf == envelope::framed(flags, payload).take(n),
        payload.len() <= size_limit(s.max_message_size) || (flags >= 128 && s.protocol
            == Protocol::GrpcWeb),
    ensures
        s.stepped(read, deadline_passed) == (s, StepView::NeedBody),
{
    let b = envelope::framed(flags, payload);
    laws::flags_are_bits(flags);
    laws::framing_makes_an_envelope(flags, payload);
    laws::envelopes_are_taken_one_by_one(b, flags, payload, Seq::empty(), s.limit(), n);
    if n > 0 {
        assert(s.buf[0] == b[0]);
    }
    if n >= 5 {
        envelope::length_bytes_round_trip(payload.len(), flags, payload);
        assert(envelope::length_at(s.buf, 0) == envelope::length_at(b, 0));
    }
}

/// Trailers without a status, on their own or in a frame, are an error: that of the
/// deadline when it has passed, else `unknown`.
pub proof fn trailers_without_status_are_an_error(
    s: StreamView,
    t: headers::Headers,
    read: Option<headers::Headers>,
    deadline_passed: bool,
)
    requires
        s.end is None,
        s.protocol != Protocol::Connect,
        s.saw_body_data || !s.headers.dom().contains("grpc-status"@),
        !t.dom().contains("grpc-status"@),
    ensures
        s.fed(EventView::Trailers(t), read, deadline_passed).end matches Some(end) && {
            &&& end.outcome matches Err(e) && e.code == if deadline_passed {
                ErrorCode::DeadlineExceeded
            } else {
                ErrorCode::Unknown
            }
            &&& end.trailers == Some(t)
        },
{
}

/// A gRPC-Web body that ends in the middle of its trailer frame has no status, and
/// one that ends with the whole frame has that of the frame.
pub proof fn trailer_frame_counts_at_the_end(
    s: StreamView,
    t: headers::Headers,
    status: u32,
    deadline_passed: bool,
)
    requires
        s.end is None,
        s.protocol == Protocol::GrpcWeb,
        s.saw_body_data,
        s.buf.len() > 0,
        s.buf[0] >= 128,
        laws::says(t, "grpc-status"@, text::decimal(status as nat)),
    ensures
        s.fed(EventView::Eof, None, deadline_passed).end matches Some(end) && (
        end.outcome matches Err(e) && e.code == if deadline_passed {
            ErrorCode::DeadlineExceeded
        } else {
            ErrorCode::Internal
        }),
        s.fed(EventView::Eof, Some(t), deadline_passed).end matches Some(end) && {
            &&& end.trailers == Some(t)
            &&& status == 0 ==> end.outcome is Ok
            &&& status != 0 ==> (end.outcome matches Err(e) && e.code == errors::code_numbered(
                status as nat,
            ))
        },
{
    laws::flags_are_bits(s.buf[0]);
    errors::status_is_read(t, status);
}

} // verus!
