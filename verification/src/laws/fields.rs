//! Headers that callers give and trailers that servers write, down to the single
//! name and value.

use vstd::prelude::*;
use crate::compression::CompressionRegistry;
use crate::config;
use crate::encoding;
use crate::end_stream::MetadataView;
use crate::end_stream;
use crate::envelope;
use crate::grpc;
use crate::headers;
use crate::laws::streams;
use crate::laws;
use crate::text;

verus! {

/// Whether a text is a header name in any case: at least one character, at most
/// 65535, and no character but letters, digits and the signs that HTTP allows.
pub open spec fn is_name(s: Seq<char>) -> bool {
    &&& 1 <= s.len() <= 65535
    &&& forall|i: int|
        0 <= i < s.len() ==> ({
            let c = #[trigger] s[i];
            ||| 'a' <= c <= 'z'
            ||| 'A' <= c <= 'Z'
            ||| '0' <= c <= '9'
            ||| "!#$%&'*+-.^_`|~"@.contains(c)
        })
}

/// The signs that HTTP allows in names, besides letters and digits.
proof fn signs_of_names(c: char)
    ensures
        headers::is_token_char(c) <==> 'a' <= c <= 'z' || 'A' <= c <= 'Z' || '0' <= c <= '9'
            || "!#$%&'*+-.^_`|~"@.contains(c),
{
    reveal_strlit("!#$%&'*+-.^_`|~");
    let signs = "!#$%&'*+-.^_`|~"@;
    assert(signs =~= seq![
        '!', '#', '$', '%', '&', '\'', '*', '+', '-', '.', '^', '_', '`', '|', '~',
    ]);
    assert(signs[0] == '!' && signs[1] == '#' && signs[2] == '$' && signs[3] == '%');
    assert(signs[4] == '&' && signs[5] == '\'' && signs[6] == '*' && signs[7] == '+');
    assert(signs[8] == '-' && signs[9] == '.' && signs[10] == '^' && signs[11] == '_');
    assert(signs[12] == '`' && signs[13] == '|' && signs[14] == '~');
}

/// Header names are taken in any case and held in lower case.
pub proof fn names_are_held_in_lower_case(s: Seq<char>)
    ensures
        headers::header_name_of(s) is Some <==> is_name(s),
        headers::header_name_of(s) matches Some(n) ==> n.len() == s.len() && forall|i: int|
            0 <= i < s.len() ==> #[trigger] n[i] == if 'A' <= s[i] <= 'Z' {
                (s[i] as u32 + 32) as char
            } else {
                s[i]
            },
{
    assert forall|i: int| 0 <= i < s.len() implies headers::is_token_char(#[trigger] s[i]) == ({
        let c = s[i];
        ||| 'a' <= c <= 'z'
        ||| 'A' <= c <= 'Z'
        ||| '0' <= c <= '9'
        ||| "!#$%&'*+-.^_`|~"@.contains(c)
    }) by {
        signs_of_names(s[i]);
    }
}

/// A header that a caller gives is added after the values of that name that are
/// there, with its mark for logs, and touches no other name. One that HTTP does
/// not allow changes nothing.
pub proof fn given_header_is_added(
    h: headers::Headers,
    name: Seq<char>,
    value: Seq<u8>,
    sensitive: bool,
    other: Seq<char>,
)
    ensures
        ({
            let r = config::with_given(h, name, (value, sensitive));
            let allowed = forall|i: int|
                0 <= i < value.len() ==> #[trigger] value[i] == 9 || (value[i] >= 32 && value[i]
                    != 127);
            &&& !is_name(name) || !allowed ==> r == h
            &&& is_name(name) && allowed ==> {
                let n = headers::header_name_of(name)->Some_0;
                &&& r.dom() == h.dom().insert(n)
                &&& r[n].last() == (value, sensitive)
                &&& r[n].drop_last() == if h.dom().contains(n) {
                    h[n]
                } else {
                    Seq::empty()
                }
                &&& other != n && h.dom().contains(other) ==> r[other] == h[other]
            }
        }),
{
    names_are_held_in_lower_case(name);
    if let Some(n) = headers::header_name_of(name) {
        let before = headers::values_of(h, n);
        assert(before.push((value, sensitive)).drop_last() =~= before);
    }
}

/// One more entry in the trailers of an END_STREAM envelope adds each of its
/// values that HTTP allows, under its name in lower case; an entry whose name HTTP
/// does not allow adds nothing.
pub proof fn entries_add_their_values(m: MetadataView, name: Seq<char>, value: Seq<char>)
    ensures
        ({
            let before = end_stream::end_trailers(m);
            let after = end_stream::end_trailers(m.push((name, seq![value])));
            let bytes = vstd::utf8::encode_utf8(value);
            &&& end_stream::end_trailers(m.push((name, Seq::empty()))) == before
            &&& !is_name(name) || !headers::is_header_value(bytes) ==> after == before
            &&& is_name(name) && headers::is_header_value(bytes) ==> after == headers::with_value(
                before,
                headers::header_name_of(name)->Some_0,
                (bytes, false),
            )
        }),
{
    names_are_held_in_lower_case(name);
    let one = seq![value];
    let none = Seq::<Seq<char>>::empty();
    assert(m.push((name, one)).drop_last() =~= m);
    assert(m.push((name, none)).drop_last() =~= m);
    assert(one.drop_last() =~= none);
    reveal_with_fuel(end_stream::entry_fields, 2);
    let fields = end_stream::metadata_fields(m);
    assert(end_stream::entry_fields(name, none) =~= Seq::empty());
    assert(fields + Seq::empty() =~= fields);
    let bytes = vstd::utf8::encode_utf8(value);
    if is_name(name) && headers::is_header_value(bytes) {
        let f = (headers::header_name_of(name)->Some_0, (bytes, false));
        assert(end_stream::entry_fields(name, one) =~= seq![f]);
        assert(fields + seq![f] =~= fields.push(f));
        assert(fields.push(f).drop_last() =~= fields);
    } else {
        assert(end_stream::entry_fields(name, one) =~= Seq::empty());
    }
}

/// Spaces before and after a text that has none there are trimmed.
proof fn spaces_are_trimmed(left: nat, value: Seq<char>, right: nat)
    requires
        value.len() > 0,
        !text::is_space(value[0]),
        !text::is_space(value.last()),
    ensures
        text::trimmed(spaces(left) + value + spaces(right)) == value,
    decreases left + right,
{
    let s = spaces(left) + value + spaces(right);
    if right > 0 {
        spaces_are_trimmed(left, value, (right - 1) as nat);
        assert(s.last() == ' ');
        assert(s.drop_last() =~= spaces(left) + value + spaces((right - 1) as nat));
    } else {
        assert(s =~= spaces(left) + value);
        assert(s.last() == value.last());
        assert(text::trimmed_end(s) == s);
        spaces_in_front(left, value);
    }
}

/// Spaces before a text that has none there are trimmed.
proof fn spaces_in_front(left: nat, value: Seq<char>)
    requires
        value.len() > 0,
        !text::is_space(value[0]),
    ensures
        text::trimmed_start(spaces(left) + value) == value,
    decreases left,
{
    let s = spaces(left) + value;
    if left > 0 {
        spaces_in_front((left - 1) as nat, value);
        assert(s[0] == ' ');
        assert(s.skip(1) =~= spaces((left - 1) as nat) + value);
    } else {
        assert(s =~= value);
    }
}

/// Some spaces.
pub open spec fn spaces(n: nat) -> Seq<char> {
    Seq::new(n, |i: int| ' ')
}

/// The first place of a character after a text that lacks it.
proof fn first_place(before: Seq<char>, c: char, rest: Seq<char>)
    requires
        !before.contains(c),
    ensures
        text::position(before + seq![c] + rest, c) == before.len(),
    decreases before.len(),
{
    let s = before + seq![c] + rest;
    if before.len() == 0 {
        assert(s[0] == c);
    } else {
        assert(before[0] != c) by {
            if before[0] == c {
                assert(before.contains(c));
            }
        }
        assert(s[0] == before[0]);
        let shorter = before.skip(1);
        assert forall|i: int| 0 <= i < shorter.len() implies shorter[i] != c by {
            assert(shorter[i] == before[i + 1]);
        }
        assert(!shorter.contains(c));
        first_place(shorter, c, rest);
        assert(s.skip(1) =~= shorter + seq![c] + rest);
    }
}

/// A line of a trailer block is read whatever the case of its name and however
/// many spaces stand around the name and the value; the value keeps its colons.
pub proof fn trailer_lines_may_be_padded(
    name: Seq<char>,
    value: Seq<char>,
    a: nat,
    b: nat,
    c: nat,
    d: nat,
)
    requires
        is_name(name),
        value.len() > 0,
        !text::is_space(value[0]),
        !text::is_space(value.last()),
        headers::is_header_value(vstd::utf8::encode_utf8(value)),
    ensures
        grpc::line_field(
            spaces(a) + name + spaces(b) + seq![':'] + spaces(c) + value + spaces(d) + seq!['\r'],
        ) == Some(
            (headers::header_name_of(name)->Some_0, (vstd::utf8::encode_utf8(value), false)),
        ),
{
    names_are_held_in_lower_case(name);
    let front = spaces(a) + name + spaces(b);
    let back = spaces(c) + value + spaces(d);
    let line = front + seq![':'] + back;
    let whole = spaces(a) + name + spaces(b) + seq![':'] + spaces(c) + value + spaces(d) + seq![
        '\r',
    ];
    assert(whole =~= line.push('\r'));
    assert(line.push('\r').drop_last() =~= line);
    assert(line.last() != '\r') by {
        assert(back.len() > 0 && line.last() == back.last());
        if d == 0 {
            assert(back.last() == value.last());
            assert(text::is_space('\r'));
        } else {
            assert(back.last() == ' ');
        }
    }
    reveal_with_fuel(text::without_trailing, 2);
    assert(text::without_trailing(whole, '\r') == line);
    assert(headers::is_header_name(name));
    assert(!front.contains(':')) by {
        if front.contains(':') {
            let i = choose|i: int| 0 <= i < front.len() && front[i] == ':';
            if a <= i < a + name.len() {
                assert(front[i] == name[i - a]);
                assert(headers::is_token_char(name[i - a]));
            }
        }
    }
    first_place(front, ':', back);
    assert(line.take(front.len() as int) =~= front);
    assert(line.skip(front.len() as int + 1) =~= back);
    assert(headers::is_token_char(name[0]) && headers::is_token_char(name.last()));
    spaces_are_trimmed(a, name, b);
    spaces_are_trimmed(c, value, d);
}

/// A text without a character has no place for it.
proof fn no_place(s: Seq<char>, c: char)
    requires
        !s.contains(c),
    ensures
        text::position(s, c) == s.len(),
    decreases s.len(),
{
    if s.len() > 0 {
        assert(s[0] != c) by {
            if s[0] == c {
                assert(s.contains(c));
            }
        }
        let shorter = s.skip(1);
        assert forall|i: int| 0 <= i < shorter.len() implies shorter[i] != c by {
            assert(shorter[i] == s[i + 1]);
        }
        assert(!shorter.contains(c));
        no_place(shorter, c);
    }
}

/// A line without a colon is no trailer, and lines that are none change nothing.
pub proof fn other_lines_are_passed_over(lines: Seq<Seq<char>>, line: Seq<char>)
    requires
        !line.contains(':'),
    ensures
        grpc::line_field(line) is None,
        grpc::line_fields(lines.push(line)) == grpc::line_fields(lines),
{
    let l = text::without_trailing(line, '\r');
    stripping_keeps_a_prefix(line, '\r');
    assert(!l.contains(':')) by {
        if l.contains(':') {
            let i = choose|i: int| 0 <= i < l.len() && l[i] == ':';
            assert(line[i] == ':');
        }
    }
    no_place(l, ':');
    assert(lines.push(line).drop_last() =~= lines);
}

/// Stripping a character off the end leaves a prefix.
proof fn stripping_keeps_a_prefix(s: Seq<char>, c: char)
    ensures
        text::without_trailing(s, c).len() <= s.len(),
        text::without_trailing(s, c) == s.take(text::without_trailing(s, c).len() as int),
    decreases s.len(),
{
    if s.len() > 0 && s.last() == c {
        stripping_keeps_a_prefix(s.drop_last(), c);
        let r = text::without_trailing(s, c);
        assert(s.drop_last().take(r.len() as int) =~= s.take(r.len() as int));
    } else {
        assert(s.take(s.len() as int) =~= s);
    }
}

/// A trailer frame that was compressed with an encoding that the client knows is
/// read like one that was not.
pub proof fn compressed_web_trailers_are_read(
    fields: Seq<(Seq<char>, Seq<char>)>,
    registry: CompressionRegistry,
    encoding: Seq<char>,
    packed: Seq<u8>,
    rest: Seq<u8>,
)
    requires
        forall|i: int| 0 <= i < fields.len() ==> grpc::is_line_field(#[trigger] fields[i]),
        laws::can_unpack(registry, encoding),
        registry.is_packed(
            encoding,
            vstd::utf8::encode_utf8(grpc::trailer_block(fields)),
            packed,
        ),
        vstd::utf8::encode_utf8(grpc::trailer_block(fields)).len() <= 1024 * 1024,
        packed.len() <= 1024 * 1024,
    ensures
        grpc::frame_trailers(envelope::framed(129, packed) + rest, Some((registry, encoding)))
            == Some(streams::as_headers(fields)),
        grpc::frame_trailers(envelope::framed(129, packed) + rest, None) is None,
{
    let block = grpc::trailer_block(fields);
    let payload = vstd::utf8::encode_utf8(block);
    let frame = envelope::framed(129, packed);
    laws::flags_are_bits(129);
    assert(frame + rest =~= seq![129u8] + envelope::length_bytes(packed.len()) + (packed + rest));
    envelope::length_bytes_round_trip(packed.len(), 129, packed + rest);
    assert((frame + rest).subrange(5, 5 + packed.len() as int) =~= packed);
    assert((frame + rest)[0] == 129);
    registry.decompression_inverts_compression(encoding, payload, packed, 1_048_576);
    vstd::utf8::encode_utf8_valid_utf8(block);
    vstd::utf8::encode_utf8_decode_utf8(block);
    grpc::trailer_block_round_trip(fields);
}

/// What is no trailer frame gives no trailers: a frame of another kind, one of more
/// than a mebibyte, one that was cut off, and one that is not UTF-8.
pub proof fn other_frames_give_no_trailers(
    flags: u8,
    payload: Seq<u8>,
    n: int,
    rest: Seq<u8>,
    compression: Option<(CompressionRegistry, Seq<char>)>,
)
    requires
        payload.len() <= u32::MAX,
    ensures
        ({
            let frame = envelope::framed(flags, payload);
            &&& flags < 128 ==> grpc::frame_trailers(frame + rest, compression) is None
            &&& payload.len() > 1024 * 1024 ==> grpc::frame_trailers(frame + rest, compression)
                is None
            &&& 0 <= n < frame.len() ==> grpc::frame_trailers(frame.take(n), compression) is None
            &&& flags == 128 && !vstd::utf8::valid_utf8(payload) ==> grpc::frame_trailers(
                frame,
                compression,
            ) is None
        }),
{
    let frame = envelope::framed(flags, payload);
    laws::flags_are_bits(flags);
    envelope::length_bytes_round_trip(payload.len(), flags, payload);
    envelope::length_bytes_round_trip(payload.len(), flags, payload + rest);
    assert(frame + rest =~= seq![flags] + envelope::length_bytes(payload.len()) + (payload + rest));
    assert((frame + rest)[0] == flags && frame[0] == flags);
    if 5 <= n < frame.len() {
        assert(envelope::length_at(frame.take(n), 0) == envelope::length_at(frame, 0));
    }
    assert(frame.subrange(5, 5 + payload.len() as int) =~= payload);
}

/// Escapes in a status message may have their digits in either case.
pub proof fn escapes_are_read_in_either_case(high: u8, low: u8, rest: Seq<u8>, n: u8)
    requires
        48 <= high <= 57 || 65 <= high <= 70 || 97 <= high <= 102,
        48 <= low <= 57 || 65 <= low <= 70 || 97 <= low <= 102,
        n == (if high <= 57 {
            high - 48
        } else if high <= 70 {
            high - 55
        } else {
            high - 87
        }) * 16 + (if low <= 57 {
            low - 48
        } else if low <= 70 {
            low - 55
        } else {
            low - 87
        }),
    ensures
        encoding::percent_decoded(seq![37u8, high, low] + rest) == seq![n]
            + encoding::percent_decoded(rest),
{
    let b = seq![37u8, high, low] + rest;
    assert(b.skip(3) =~= rest);
    assert(b[0] == 37 && b[1] == high && b[2] == low);
}

/// A percent sign without two digits after it stays, and so does any other byte.
pub proof fn what_is_no_escape_stays(first: u8, rest: Seq<u8>)
    requires
        first != 37 || rest.len() < 2 || !(48 <= rest[0] <= 57 || 65 <= rest[0] <= 70 || 97
            <= rest[0] <= 102) || !(48 <= rest[1] <= 57 || 65 <= rest[1] <= 70 || 97 <= rest[1]
            <= 102),
    ensures
        encoding::percent_decoded(seq![first] + rest) == seq![first] + encoding::percent_decoded(
            rest,
        ),
{
    let b = seq![first] + rest;
    assert(b.skip(1) =~= rest);
    if b.len() >= 3 {
        assert(b[1] == rest[0] && b[2] == rest[1]);
    }
}

} // verus!
