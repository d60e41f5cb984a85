//! The termination metadata of gRPC and gRPC-Web: the status in a set of
//! trailers, and the trailer frame of gRPC-Web.

use vstd::prelude::*;
use crate::compression::CompressionRegistry;
use crate::encoding;
use crate::envelope;
use crate::error::{ConnectError, ErrorCode, ErrorDetail};
use crate::error;
use crate::grpc_status;
use crate::headers::HeaderField;
use crate::headers;
use crate::metadata;
use crate::text;

verus! {

/// A number below 256 in lower-case hexadecimal, without leading zeros.
pub open spec fn short_hex(n: u8) -> Seq<char> {
    if n < 16 {
        seq![headers::lower(encoding::hex_digit(n))]
    } else {
        seq![
            headers::lower(encoding::hex_digit((n / 16) as u8)),
            headers::lower(encoding::hex_digit((n % 16) as u8)),
        ]
    }
}

/// Bytes as they appear between quotation marks: quotation marks escaped, bytes
/// that are no visible text in hexadecimal.
pub open spec fn escaped(b: Seq<u8>) -> Seq<char>
    decreases b.len(),
{
    if b.len() == 0 {
        Seq::empty()
    } else {
        let c = b.last();
        escaped(b.drop_last()) + if c == 34 {
            seq!['\\', '"']
        } else if 32 <= c <= 126 || c == 9 {
            seq![c as char]
        } else {
            seq!['\\', 'x'] + short_hex(c)
        }
    }
}

/// How a header value is shown for debugging; a sensitive one is not shown.
pub open spec fn debug_text(value: (Seq<u8>, bool)) -> Seq<char> {
    if value.1 {
        "Sensitive"@
    } else {
        seq!['"'] + escaped(value.0) + seq!['"']
    }
}

/// The `Debug` form of `http::HeaderValue`, here that of the first value of a
/// name, is the value in quotation marks with quotation marks and invisible bytes
/// escaped, or `Sensitive` when the value is marked so.
#[verifier::external_body]
fn debug_first_value(m: &http::HeaderMap, name: &str) -> (r: String)
    requires
        headers::is_canonical_name(name@),
        headers::header_contents(*m).dom().contains(name@),
    ensures
        r@ == debug_text(headers::header_contents(*m)[name@][0]),
{
    format!("{:?}", m.get(name).unwrap())
}

/// The trailers that say how an RPC ended, apart from the caller's metadata.
pub open spec fn is_status_name(n: Seq<char>) -> bool {
    n == "grpc-status"@ || n == "grpc-message"@ || n == "grpc-status-details-bin"@
}

/// The caller's metadata among some trailers.
pub open spec fn other_trailers(h: headers::Headers) -> headers::Headers {
    Map::new(|n: Seq<char>| h.dom().contains(n) && !is_status_name(n), |n: Seq<char>| h[n])
}

/// The error of a status, unless the status is zero: its code, its message, its
/// details and the caller's metadata.
pub open spec fn status_error(
    status: u32,
    message: Seq<char>,
    details: Seq<error::DetailView>,
    h: headers::Headers,
) -> Option<error::ErrorView> {
    if status == 0 {
        None
    } else {
        let code = match ErrorCode::numbered(status) {
            Some(c) => c,
            None => ErrorCode::Unknown,
        };
        Some(
            error::plain_error(code, message).with_details(details).with_trailers(
                other_trailers(h),
            ),
        )
    }
}

/// The status in some trailers: none, malformed, or a number.
pub open spec fn status_of(h: headers::Headers) -> Option<Option<u32>> {
    if h.dom().contains("grpc-status"@) {
        match metadata::header_text(h, "grpc-status"@) {
            Some(s) => Some(text::parsed_u32(s)),
            None => Some(None),
        }
    } else {
        None
    }
}

/// The error for a status that is no number.
pub open spec fn malformed_status(value: (Seq<u8>, bool)) -> error::ErrorView {
    error::plain_error(
        ErrorCode::Unknown,
        "protocol error: malformed grpc-status: "@ + debug_text(value),
    )
}

/// The message in some trailers; empty when there is none.
pub open spec fn message_of(h: headers::Headers) -> Seq<char> {
    match metadata::header_text(h, "grpc-message"@) {
        Some(s) => encoding::utf8_text(encoding::percent_decoded(vstd::utf8::encode_utf8(s))),
        None => Seq::empty(),
    }
}

/// The details in some trailers; none when they cannot be read.
pub open spec fn details_in(h: headers::Headers) -> Seq<error::DetailView> {
    match metadata::header_text(h, "grpc-status-details-bin"@) {
        Some(s) => match encoding::standard_decoded(s) {
            Some(b) => grpc_status::details_of(b),
            None => Seq::empty(),
        },
        None => Seq::empty(),
    }
}

/// The error that some trailers report. Trailers without a status, and those
/// with status zero, report none.
pub open spec fn error_in(h: headers::Headers) -> Option<error::ErrorView> {
    match status_of(h) {
        None => None,
        Some(None) => Some(malformed_status(h["grpc-status"@][0])),
        Some(Some(status)) => status_error(status, message_of(h), details_in(h), h),
    }
}

/// The view of an optional error.
pub open spec fn view_of(e: Option<ConnectError>) -> Option<error::ErrorView> {
    match e {
        Some(e) => Some(e@),
        None => None,
    }
}

/// Copies the caller's metadata out of some trailers.
fn copy_other_trailers(trailers: &http::HeaderMap) -> (r: http::HeaderMap)
    ensures
        headers::header_contents(r) == other_trailers(headers::header_contents(*trailers)),
{
    proof {
        metadata::protocol_names_are_canonical("grpc-status"@);
        metadata::protocol_names_are_canonical("grpc-message"@);
        metadata::protocol_names_are_canonical("grpc-status-details-bin"@);
    }
    let mut out = headers::copy_headers(trailers);
    headers::remove_name(&mut out, "grpc-status");
    headers::remove_name(&mut out, "grpc-message");
    headers::remove_name(&mut out, "grpc-status-details-bin");
    assert(headers::header_contents(out) =~= other_trailers(headers::header_contents(*trailers)));
    out
}

/// Builds the error of a status from its parts, unless the status is zero.
pub fn grpc_status_error(
    status: u32,
    message: &str,
    details: Vec<ErrorDetail>,
    trailers: &http::HeaderMap,
) -> (r: Option<ConnectError>)
    ensures
        view_of(r) == status_error(
            status,
            message@,
            error::detail_views(details@),
            headers::header_contents(*trailers),
        ),
{
    if status == 0 {
        return None;
    }
    let code = match ErrorCode::from_grpc_code(status) {
        Some(c) => c,
        None => ErrorCode::Unknown,
    };
    let mut e = ConnectError::new(code, message);
    e.set_details(details);
    e.set_trailers(copy_other_trailers(trailers));
    Some(e)
}

/// Finds the error that trailers report, in whichever form they came: as HTTP/2
/// trailers, as a gRPC-Web trailer frame, or as the headers of a response that
/// has nothing else. A status that is present but no number is a protocol
/// error, never a success.
pub fn parse_grpc_error_from_trailers(trailers: &http::HeaderMap) -> (r: Option<ConnectError>)
    ensures
        view_of(r) == error_in(headers::header_contents(*trailers)),
{
    proof {
        metadata::protocol_names_are_canonical("grpc-status"@);
        metadata::protocol_names_are_canonical("grpc-message"@);
        metadata::protocol_names_are_canonical("grpc-status-details-bin"@);
        reveal_strlit("");
        assert(""@ =~= Seq::<char>::empty());
    }
    let raw = match headers::first_value(trailers, "grpc-status") {
        None => {
            return None;
        },
        Some(f) => f,
    };
    let status = match metadata::visible_string(raw.value.as_slice()) {
        Some(s) => text::parse_u32(s.as_str()),
        None => None,
    };
    let status = match status {
        None => {
            let m = text::join2(
                "protocol error: malformed grpc-status: ",
                debug_first_value(trailers, "grpc-status").as_str(),
            );
            return Some(ConnectError::new(ErrorCode::Unknown, m.as_str()));
        },
        Some(n) => n,
    };
    let message = match metadata::header_string(trailers, "grpc-message") {
        Some(s) => encoding::grpc_percent_decode(s.as_str()),
        None => String::new(),
    };
    let mut details: Vec<ErrorDetail> = Vec::new();
    assert(error::detail_views(details@) =~= Seq::empty());
    if let Some(s) = metadata::header_string(trailers, "grpc-status-details-bin") {
        if let Some(b) = encoding::decode_standard(s.as_str()) {
            details = grpc_status::decode_details(b.as_slice());
        }
    }
    grpc_status_error(status, message.as_str(), details, trailers)
}

/// The most bytes a gRPC-Web trailer frame may have, packed or unpacked.
pub const MAX_TRAILER_SIZE: usize = 1_048_576;

/// The header in one line of a trailer block, if the line holds one: a name and
/// a value around the first colon, with white space around each ignored.
pub open spec fn line_field(line: Seq<char>) -> Option<(Seq<char>, (Seq<u8>, bool))> {
    let l = text::without_trailing(line, '\r');
    let i = text::position(l, ':');
    if i >= l.len() {
        None
    } else {
        let name = headers::header_name_of(text::trimmed(l.take(i as int)));
        let value = vstd::utf8::encode_utf8(text::trimmed(l.skip(i as int + 1)));
        if name is Some && headers::is_header_value(value) {
            Some((name->Some_0, (value, false)))
        } else {
            None
        }
    }
}

/// The headers in some lines of a trailer block.
pub open spec fn line_fields(lines: Seq<Seq<char>>) -> Seq<(Seq<char>, (Seq<u8>, bool))>
    decreases lines.len(),
{
    if lines.len() == 0 {
        Seq::empty()
    } else {
        match line_field(lines.last()) {
            Some(f) => line_fields(lines.drop_last()).push(f),
            None => line_fields(lines.drop_last()),
        }
    }
}

/// The trailers in a block of text, one on each line. Lines that hold none are
/// passed over.
pub open spec fn block_trailers(s: Seq<char>) -> headers::Headers {
    headers::with_fields(headers::no_headers(), line_fields(text::pieces(s, '\n')))
}

/// The trailers in the payload of a trailer frame; nothing when the payload is
/// no text.
pub open spec fn payload_trailers(b: Seq<u8>) -> Option<headers::Headers> {
    if vstd::utf8::valid_utf8(b) {
        Some(block_trailers(vstd::utf8::decode_utf8(b)))
    } else {
        None
    }
}

/// The payload of the trailer frame at the front of some bytes, decompressed if
/// need be. Nothing when there is no whole frame, when it is too large, or when
/// it cannot be decompressed.
pub open spec fn trailer_payload(
    data: Seq<u8>,
    compression: Option<(CompressionRegistry, Seq<char>)>,
) -> Option<Seq<u8>> {
    if data.len() < 5 || !envelope::has_trailer_flag(data[0]) || envelope::length_at(data, 0)
        > MAX_TRAILER_SIZE || data.len() < 5 + envelope::length_at(data, 0) {
        None
    } else {
        let raw = data.subrange(5, 5 + envelope::length_at(data, 0) as int);
        if envelope::has_compressed_flag(data[0]) {
            match compression {
                None => None,
                Some((registry, encoding)) => match registry.decompressed(
                    encoding,
                    raw,
                    MAX_TRAILER_SIZE,
                ) {
                    Ok(b) => Some(b),
                    Err(_) => None,
                },
            }
        } else {
            Some(raw)
        }
    }
}

/// The trailers in the trailer frame at the front of some bytes.
pub open spec fn frame_trailers(
    data: Seq<u8>,
    compression: Option<(CompressionRegistry, Seq<char>)>,
) -> Option<headers::Headers> {
    match trailer_payload(data, compression) {
        Some(b) => payload_trailers(b),
        None => None,
    }
}

/// Whether `got` is what reading some trailers can give: the trailers or, where
/// they have more names than a header map is sure to hold, possibly nothing.
pub open spec fn can_read(
    got: Option<headers::Headers>,
    expected: Option<headers::Headers>,
) -> bool {
    got == expected || (got is None && !headers::has_room(expected->Some_0))
}

/// The view of an optional header map.
pub open spec fn contents_of(m: Option<http::HeaderMap>) -> Option<headers::Headers> {
    match m {
        Some(m) => Some(headers::header_contents(m)),
        None => None,
    }
}

/// The view of an optional compression.
pub open spec fn compression_view(
    c: Option<(&CompressionRegistry, &str)>,
) -> Option<(CompressionRegistry, Seq<char>)> {
    match c {
        Some((registry, encoding)) => Some((*registry, encoding@)),
        None => None,
    }
}

/// Reads the header in one line of a trailer block.
fn read_line(line: &[char]) -> (r: Option<HeaderField>)
    ensures
        match r {
            Some(f) => line_field(line@) == Some(f@) && f.wf(),
            None => line_field(line@) is None,
        },
{
    let end = text::trailing_start(line, '\r');
    let l = vstd::slice::slice_subrange(line, 0, end);
    assert(l@ =~= text::without_trailing(line@, '\r'));
    let colon = text::find(l, ':');
    if colon >= l.len() {
        return None;
    }
    let key = vstd::slice::slice_subrange(l, 0, colon);
    let rest = vstd::slice::slice_subrange(l, colon + 1, l.len());
    assert(key@ =~= l@.take(colon as int));
    assert(rest@ =~= l@.skip(colon + 1));
    match headers::parse_header_name(text::trim(key).as_str()) {
        None => None,
        Some(name) => match headers::parse_header_value(text::trim(rest).as_str()) {
            None => None,
            Some(value) => {
                proof {
                    headers::header_names_are_canonical(text::trimmed(key@));
                }
                Some(HeaderField { name, value, sensitive: false })
            },
        },
    }
}

/// The pieces of a text that grows by one character.
proof fn pieces_step(s: Seq<char>, i: int, c: char)
    requires
        0 <= i < s.len(),
    ensures
        text::pieces(s.take(i), c).len() > 0,
        s[i] == c ==> text::pieces(s.take(i + 1), c) == text::pieces(s.take(i), c).push(
            Seq::empty(),
        ),
        s[i] != c ==> text::pieces(s.take(i + 1), c) == text::pieces(
            s.take(i),
            c,
        ).drop_last().push(text::pieces(s.take(i), c).last().push(s[i])),
    decreases i,
{
    assert(s.take(i + 1).drop_last() =~= s.take(i));
    if i > 0 {
        pieces_step(s, i - 1, c);
    }
}

/// The first lines of a block give a part of the names of all its lines.
proof fn fewer_lines(lines: Seq<Seq<char>>, n: int)
    requires
        0 <= n <= lines.len(),
    ensures
        line_fields(lines.take(n)).len() <= line_fields(lines).len(),
        line_fields(lines.take(n)) == line_fields(lines).take(
            line_fields(lines.take(n)).len() as int,
        ),
    decreases lines.len() - n,
{
    if n < lines.len() {
        assert(lines.take(n + 1).drop_last() =~= lines.take(n));
        fewer_lines(lines, n + 1);
        let part = line_fields(lines.take(n));
        let more = line_fields(lines.take(n + 1));
        let all = line_fields(lines);
        assert(part =~= more.take(part.len() as int));
        assert(part =~= all.take(part.len() as int));
    } else {
        assert(lines.take(n) =~= lines);
        assert(line_fields(lines).take(line_fields(lines).len() as int) =~= line_fields(lines));
    }
}

/// If the headers of the first lines leave no room, neither do those of all.
proof fn overfull_lines(lines: Seq<Seq<char>>, n: int)
    requires
        0 <= n <= lines.len(),
        !headers::has_room(
            headers::with_fields(headers::no_headers(), line_fields(lines.take(n))),
        ),
    ensures
        !headers::has_room(headers::with_fields(headers::no_headers(), line_fields(lines))),
{
    fewer_lines(lines, n);
    let all = line_fields(lines);
    let part = line_fields(lines.take(n));
    metadata::with_fields_names(headers::no_headers(), all);
    metadata::with_fields_names(headers::no_headers(), part);
    metadata::with_fewer_fields_names(headers::no_headers(), all, part.len() as int);
}

/// Splits a text into the pieces between the occurrences of a character.
fn split_lines(s: &str) -> (r: Vec<Vec<char>>)
    ensures
        r@.map_values(|l: Vec<char>| l@) == text::pieces(s@, '\n'),
{
    let chars = text::chars_of(s);
    let mut done: Vec<Vec<char>> = Vec::new();
    let mut current: Vec<char> = Vec::new();
    let mut i: usize = 0;
    proof {
        assert(chars@.take(0) =~= Seq::empty());
        assert(done@.map_values(|l: Vec<char>| l@).push(current@) =~= text::pieces(
            chars@.take(0),
            '\n',
        ));
    }
    while i < chars.len()
        invariant
            i <= chars@.len(),
            chars@ == s@,
            done@.map_values(|l: Vec<char>| l@).push(current@) == text::pieces(
                chars@.take(i as int),
                '\n',
            ),
        decreases chars@.len() - i,
    {
        let ghost before = done@.map_values(|l: Vec<char>| l@);
        let ghost line = current@;
        proof {
            pieces_step(chars@, i as int, '\n');
            assert(before.push(line).drop_last() =~= before);
        }
        if chars[i] == '\n' {
            done.push(current);
            current = Vec::new();
            assert(done@.map_values(|l: Vec<char>| l@) =~= before.push(line));
        } else {
            current.push(chars[i]);
        }
        i += 1;
    }
    let ghost before = done@.map_values(|l: Vec<char>| l@);
    let ghost line = current@;
    done.push(current);
    assert(done@.map_values(|l: Vec<char>| l@) =~= before.push(line));
    assert(chars@.take(i as int) =~= chars@);
    done
}

/// Reads the trailers in the payload of a gRPC-Web trailer frame.
pub fn parse_trailer_payload(payload: &[u8]) -> (r: Option<http::HeaderMap>)
    ensures
        can_read(contents_of(r), payload_trailers(payload@)),
{
    let block = match encoding::utf8_string(payload) {
        None => {
            return None;
        },
        Some(s) => s,
    };
    let lines = split_lines(block.as_str());
    let ghost views = text::pieces(block@, '\n');
    let mut trailers = headers::new_headers();
    let mut i: usize = 0;
    assert(views.take(0) =~= Seq::empty());
    while i < lines.len()
        invariant
            i <= lines@.len(),
            views == lines@.map_values(|l: Vec<char>| l@),
            views == text::pieces(block@, '\n'),
            payload_trailers(payload@) == Some(block_trailers(block@)),
            headers::header_contents(trailers) == headers::with_fields(
                headers::no_headers(),
                line_fields(views.take(i as int)),
            ),
        decreases lines@.len() - i,
    {
        proof {
            assert(views.take(i + 1).drop_last() =~= views.take(i as int));
            assert(views.take(i + 1).last() == lines@[i as int]@);
        }
        if let Some(f) = read_line(lines[i].as_slice()) {
            let ghost so_far = line_fields(views.take(i as int));
            if !headers::try_append_field(&mut trailers, &f) {
                proof {
                    overfull_lines(views, i as int);
                }
                return None;
            }
            assert(so_far.push(f@).drop_last() =~= so_far);
        }
        i += 1;
    }
    assert(views.take(i as int) =~= views);
    Some(trailers)
}

/// Reads the gRPC-Web trailer frame at the front of some bytes, decompressing
/// it with the given registry and encoding if it is compressed.
pub fn parse_grpc_web_trailer_frame_with_compression(
    data: &[u8],
    decompression: Option<(&CompressionRegistry, &str)>,
) -> (r: Option<http::HeaderMap>)
    ensures
        can_read(contents_of(r), frame_trailers(data@, compression_view(decompression))),
{
    if data.len() < 5 || data[0] & 0x80 == 0 {
        return None;
    }
    let length: usize = envelope::read_length(data, 0) as usize;
    if length > MAX_TRAILER_SIZE || data.len() - 5 < length {
        return None;
    }
    let raw = vstd::slice::slice_subrange(data, 5, 5 + length);
    if data[0] & 1 != 0 {
        match decompression {
            None => None,
            Some((registry, encoding)) => {
                match registry.decompress_with_limit(
                    encoding,
                    vstd::slice::slice_to_vec(raw),
                    MAX_TRAILER_SIZE,
                ) {
                    Err(_) => None,
                    Ok(b) => parse_trailer_payload(b.as_slice()),
                }
            },
        }
    } else {
        parse_trailer_payload(raw)
    }
}

/// The first occurrence of a character that the text before it lacks.
proof fn position_after(before: Seq<char>, c: char, rest: Seq<char>)
    requires
        !before.contains(c),
    ensures
        text::position(before.push(c) + rest, c) == before.len(),
    decreases before.len(),
{
    let s = before.push(c) + rest;
    if before.len() > 0 {
        let shorter = before.skip(1);
        assert(before.contains(before[0]));
        assert(s[0] == before[0]);
        assert(s.skip(1) =~= shorter.push(c) + rest);
        assert forall|x: char| shorter.contains(x) implies before.contains(x) by {
            let i = choose|i: int| 0 <= i < shorter.len() && shorter[i] == x;
            assert(before[i + 1] == x);
        }
        position_after(shorter, c, rest);
    } else {
        assert(s[0] == c);
    }
}

/// A line that holds a name and a value is read as just that header, with or
/// without a carriage return at its end.
pub proof fn trailer_line_round_trip(name: Seq<char>, value: Seq<char>)
    requires
        headers::is_canonical_name(name),
        headers::is_header_value(vstd::utf8::encode_utf8(value)),
        text::trimmed(value) == value,
    ensures
        ({
            let line = name.push(':') + value;
            let field = Some((name, (vstd::utf8::encode_utf8(value), false)));
            &&& line_field(line) == field
            &&& line_field(line.push('\r')) == field
        }),
{
    let line = name.push(':') + value;
    assert(headers::is_header_name(name));
    assert(!name.contains(':')) by {
        if name.contains(':') {
            let i = choose|i: int| 0 <= i < name.len() && name[i] == ':';
            assert(headers::is_token_char(name[i]));
        }
    }
    position_after(name, ':', value);
    assert(line.take(name.len() as int) =~= name);
    assert(line.skip(name.len() as int + 1) =~= value);
    assert(headers::is_token_char(name[0]) && headers::is_token_char(name.last()));
    assert(text::trimmed(name) == name);
    assert(line.last() != '\r') by {
        if value.len() > 0 {
            assert(line.last() == value.last());
            if value.last() == '\r' {
                assert(text::is_space(value.last()));
                trimming_removes_space(value);
            }
        } else {
            assert(line.last() == ':');
        }
    }
    assert(line.push('\r').drop_last() =~= line);
    reveal_with_fuel(text::without_trailing, 2);
}

/// A text that ends with white space gets shorter when it is trimmed.
proof fn trimming_removes_space(s: Seq<char>)
    requires
        s.len() > 0,
        text::is_space(s.last()),
    ensures
        text::trimmed(s).len() < s.len(),
{
    trimmed_end_length(s.drop_last());
    trimmed_start_length(text::trimmed_end(s));
}

/// Trimming the end makes no text longer.
proof fn trimmed_end_length(s: Seq<char>)
    ensures
        text::trimmed_end(s).len() <= s.len(),
    decreases s.len(),
{
    if s.len() > 0 {
        trimmed_end_length(s.drop_last());
    }
}

/// Trimming the beginning makes no text longer.
proof fn trimmed_start_length(s: Seq<char>)
    ensures
        text::trimmed_start(s).len() <= s.len(),
    decreases s.len(),
{
    if s.len() > 0 {
        trimmed_start_length(s.skip(1));
    }
}

/// Some trailers as the text of a trailer frame: a line for each, ended with a
/// carriage return and a line feed.
pub open spec fn trailer_block(fields: Seq<(Seq<char>, Seq<char>)>) -> Seq<char>
    decreases fields.len(),
{
    if fields.len() == 0 {
        Seq::empty()
    } else {
        trailer_block(fields.drop_last()) + trailer_line(fields.last()).push('\n')
    }
}

/// A trailer as a line of text, up to the line feed.
pub open spec fn trailer_line(field: (Seq<char>, Seq<char>)) -> Seq<char> {
    (field.0.push(':') + field.1).push('\r')
}

/// Whether a trailer can be written as a line and read back: a header name, and
/// a header value without white space at either end.
pub open spec fn is_line_field(field: (Seq<char>, Seq<char>)) -> bool {
    &&& headers::is_canonical_name(field.0)
    &&& headers::is_header_value(vstd::utf8::encode_utf8(field.1))
    &&& text::trimmed(field.1) == field.1
}

/// A header value holds no line feed.
proof fn value_has_no_line_feed(value: Seq<char>)
    requires
        headers::is_header_value(vstd::utf8::encode_utf8(value)),
    ensures
        !value.contains('\n'),
    decreases value.len(),
{
    if value.len() > 0 {
        let bytes = vstd::utf8::encode_utf8(value);
        let first = vstd::utf8::encode_scalar(value[0] as u32);
        let rest = value.drop_first();
        let rest_bytes = vstd::utf8::encode_utf8(rest);
        assert forall|i: int| 0 <= i < rest_bytes.len() implies (#[trigger] rest_bytes[i] >= 32
            && rest_bytes[i] != 127) || rest_bytes[i] == 9 by {
            assert(bytes[first.len() + i] == rest_bytes[i]);
        }
        value_has_no_line_feed(rest);
        if value[0] == '\n' {
            assert(bytes[0] == first[0]);
            assert((10u32 & 0x7f) as u8 == 10u8) by (bit_vector);
        }
        if value.contains('\n') {
            let i = choose|i: int| 0 <= i < value.len() && value[i] == '\n';
            if i > 0 {
                assert(rest[i - 1] == '\n');
            }
        }
    }
}

/// A text without a character goes on with the last piece.
proof fn pieces_go_on(s: Seq<char>, t: Seq<char>, c: char)
    requires
        !t.contains(c),
    ensures
        text::pieces(s, c).len() > 0,
        text::pieces(s + t, c) == text::pieces(s, c).drop_last().push(text::pieces(s, c).last() + t),
    decreases t.len(),
{
    if s.len() > 0 {
        pieces_step(s, s.len() - 1, c);
        assert(s.take(s.len() as int) =~= s);
    }
    let before = text::pieces(s, c);
    if t.len() == 0 {
        assert(s + t =~= s);
        assert(before.last() + t =~= before.last());
        assert(before.drop_last().push(before.last()) =~= before);
    } else {
        let shorter = t.drop_last();
        assert forall|x: char| shorter.contains(x) implies t.contains(x) by {
            let i = choose|i: int| 0 <= i < shorter.len() && shorter[i] == x;
            assert(t[i] == x);
        }
        assert(t.contains(t.last()));
        pieces_go_on(s, shorter, c);
        assert((s + t).drop_last() =~= s + shorter);
        let here = before.drop_last().push(before.last() + shorter);
        assert(here.drop_last() =~= before.drop_last());
        assert((before.last() + shorter).push(t.last()) =~= before.last() + t);
    }
}

/// The lines of a text of trailers: one for each, and an empty one at the end.
proof fn trailer_block_lines(fields: Seq<(Seq<char>, Seq<char>)>)
    requires
        forall|i: int| 0 <= i < fields.len() ==> is_line_field(#[trigger] fields[i]),
    ensures
        text::pieces(trailer_block(fields), '\n') == fields.map_values(
            |f: (Seq<char>, Seq<char>)| trailer_line(f),
        ).push(Seq::empty()),
    decreases fields.len(),
{
    let to_line = |f: (Seq<char>, Seq<char>)| trailer_line(f);
    let lines = fields.map_values(to_line);
    if fields.len() > 0 {
        let shorter = fields.drop_last();
        let before = trailer_block(shorter);
        let line = trailer_line(fields.last());
        assert forall|i: int| 0 <= i < shorter.len() implies is_line_field(
            #[trigger] shorter[i],
        ) by {
            assert(is_line_field(fields[i]));
        }
        trailer_block_lines(shorter);
        assert(is_line_field(fields[fields.len() - 1]));
        let name = fields.last().0;
        let value = fields.last().1;
        value_has_no_line_feed(value);
        assert(!line.contains('\n')) by {
            if line.contains('\n') {
                let i = choose|i: int| 0 <= i < line.len() && line[i] == '\n';
                if i < name.len() {
                    assert(headers::is_token_char(name[i]));
                } else if name.len() < i < name.len() + 1 + value.len() {
                    assert(value[i - name.len() - 1] == '\n');
                }
            }
        }
        pieces_go_on(before, line, '\n');
        assert(trailer_block(fields).drop_last() =~= before + line);
        let earlier = shorter.map_values(to_line);
        assert(earlier.push(Seq::empty()).drop_last() =~= earlier);
        assert(Seq::<char>::empty() + line =~= line);
        assert(lines =~= earlier.push(line));
    } else {
        assert(lines.push(Seq::empty()) =~= seq![Seq::<char>::empty()]);
    }
}

/// Trailers that were written into a trailer frame, a line for each, are read
/// as they were.
pub proof fn trailer_block_round_trip(fields: Seq<(Seq<char>, Seq<char>)>)
    requires
        forall|i: int| 0 <= i < fields.len() ==> is_line_field(#[trigger] fields[i]),
    ensures
        block_trailers(trailer_block(fields)) == headers::with_fields(
            headers::no_headers(),
            fields.map_values(
                |f: (Seq<char>, Seq<char>)| (f.0, (vstd::utf8::encode_utf8(f.1), false)),
            ),
        ),
{
    let lines = fields.map_values(|f: (Seq<char>, Seq<char>)| trailer_line(f));
    let all = lines.push(Seq::empty());
    trailer_block_lines(fields);
    assert(all.drop_last() =~= lines);
    assert(line_field(Seq::empty()) is None);
    written_lines_are_read(fields);
}

/// Each line that a trailer was written as is read as that trailer.
proof fn written_lines_are_read(fields: Seq<(Seq<char>, Seq<char>)>)
    requires
        forall|i: int| 0 <= i < fields.len() ==> is_line_field(#[trigger] fields[i]),
    ensures
        line_fields(fields.map_values(|f: (Seq<char>, Seq<char>)| trailer_line(f)))
            == fields.map_values(
            |f: (Seq<char>, Seq<char>)| (f.0, (vstd::utf8::encode_utf8(f.1), false)),
        ),
    decreases fields.len(),
{
    let to_line = |f: (Seq<char>, Seq<char>)| trailer_line(f);
    let to_field = |f: (Seq<char>, Seq<char>)| (f.0, (vstd::utf8::encode_utf8(f.1), false));
    if fields.len() > 0 {
        let shorter = fields.drop_last();
        assert forall|i: int| 0 <= i < shorter.len() implies is_line_field(
            #[trigger] shorter[i],
        ) by {
            assert(is_line_field(fields[i]));
        }
        written_lines_are_read(shorter);
        assert(is_line_field(fields[fields.len() - 1]));
        trailer_line_round_trip(fields.last().0, fields.last().1);
        assert(fields.map_values(to_line).drop_last() =~= shorter.map_values(to_line));
        assert(fields.map_values(to_field) =~= shorter.map_values(to_field).push(
            to_field(fields.last()),
        ));
    } else {
        assert(fields.map_values(to_field) =~= Seq::empty());
    }
}

/// Trailers report success exactly when their status is a number that is zero:
/// a malformed status, and any other number, is an error.
pub proof fn only_status_zero_is_success(h: headers::Headers)
    ensures
        h.dom().contains("grpc-status"@) ==> (error_in(h) is None <==> status_of(h) == Some(
            Some(0u32),
        )),
        !h.dom().contains("grpc-status"@) ==> error_in(h) is None,
{
}

/// An error out of trailers carries all the caller's metadata and nothing of
/// the status itself.
pub proof fn error_carries_other_trailers(h: headers::Headers, n: Seq<char>)
    requires
        status_of(h) matches Some(Some(status)) && status != 0,
    ensures
        error_in(h) is Some,
        error_in(h)->Some_0.trailers.dom().contains(n) <==> h.dom().contains(n) && !is_status_name(
            n,
        ),
        error_in(h)->Some_0.trailers.dom().contains(n) ==> error_in(h)->Some_0.trailers[n] == h[n],
{
}

/// Bytes after a whole trailer frame do not change what it holds.
pub proof fn frame_trailers_is_stable(
    data: Seq<u8>,
    more: Seq<u8>,
    compression: Option<(CompressionRegistry, Seq<char>)>,
)
    requires
        data.len() >= 5,
        data.len() >= 5 + envelope::length_at(data, 0),
    ensures
        frame_trailers(data + more, compression) == frame_trailers(data, compression),
{
    assert(envelope::length_at(data + more, 0) == envelope::length_at(data, 0));
    let end = 5 + envelope::length_at(data, 0) as int;
    assert((data + more).subrange(5, end) =~= data.subrange(5, end));
}

} // verus!
