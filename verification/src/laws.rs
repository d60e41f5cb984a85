//! What holds of calls as a whole: which headers a request carries and what a
//! server reads out of it, and what a client makes of each kind of response,
//! from the head to the outcome. Names, content types and numbers of the
//! protocols are written out here.

use vstd::prelude::*;
use crate::compression::CompressionRegistry;
use crate::envelope;
use crate::headers;
use crate::metadata;

pub mod details;
pub mod errors;
pub mod fields;
pub mod messages;
pub mod requests;
pub mod responses;
pub mod streams;
pub mod timeouts;

verus! {

/// Whether a text is made of visible ASCII characters and spaces.
pub open spec fn is_plain(s: Seq<char>) -> bool {
    forall|i: int| 0 <= i < s.len() ==> ' ' <= #[trigger] s[i] <= '~'
}

/// Whether the first value of a header is a text.
pub open spec fn says(h: headers::Headers, name: Seq<char>, s: Seq<char>) -> bool {
    h.dom().contains(name) && h[name].len() > 0 && h[name][0].0 == vstd::utf8::encode_utf8(s)
}

/// Whether a header has a text for its only value, or is absent when there is no
/// text.
pub open spec fn carries(h: headers::Headers, name: Seq<char>, value: Option<Seq<char>>) -> bool {
    match value {
        Some(v) => h.dom().contains(name) && h[name] == seq![(vstd::utf8::encode_utf8(v), false)],
        None => !h.dom().contains(name),
    }
}

/// Whether the encoding with a name is one that a client with these compressions
/// can read.
pub open spec fn can_unpack(registry: CompressionRegistry, encoding: Seq<char>) -> bool {
    encoding == "identity"@ || (registry.gzip && encoding == "gzip"@)
}

/// Visible text in a header is read as it is.
pub proof fn plain_text_is_read(h: headers::Headers, name: Seq<char>, s: Seq<char>)
    requires
        is_plain(s),
        says(h, name, s),
    ensures
        metadata::header_text(h, name) == Some(s),
{
    let b = vstd::utf8::encode_utf8(s);
    assert(vstd::utf8::is_ascii_chars(s));
    vstd::utf8::is_ascii_chars_encode_utf8(s);
    assert forall|i: int| 0 <= i < b.len() implies (32 <= #[trigger] b[i] <= 126 || b[i] == 9) by {
        assert(s[i] as u8 == b[i]);
    }
    assert(b.map_values(|x: u8| x as char) =~= s) by {
        assert forall|i: int| 0 <= i < s.len() implies b.map_values(|x: u8| x as char)[i]
            == s[i] by {
            assert(s[i] as u8 == b[i]);
        }
    }
}

/// A header is read by its first value alone, and only where that is visible
/// ASCII text.
pub proof fn only_the_first_value_is_read(h: headers::Headers, name: Seq<char>)
    requires
        h.dom().contains(name) ==> h[name].len() > 0,
    ensures
        metadata::header_text(h, name) is Some ==> h.dom().contains(name) && {
            let b = h[name][0].0;
            let s = metadata::header_text(h, name)->Some_0;
            &&& s.len() == b.len()
            &&& forall|i: int| 0 <= i < b.len() ==> #[trigger] s[i] as nat == b[i] as nat
            &&& forall|i: int| 0 <= i < b.len() ==> (#[trigger] b[i] == 9 || 32 <= b[i] <= 126)
        },
        h.dom().contains(name) && metadata::header_text(h, name) is None ==> exists|i: int|
            0 <= i < h[name][0].0.len() && {
                let b = #[trigger] h[name][0].0[i];
                b != 9 && (b < 32 || b > 126)
            },
{
    if h.dom().contains(name) {
        let b = h[name][0].0;
        if let Some(s) = metadata::header_text(h, name) {
            assert forall|i: int| 0 <= i < b.len() implies #[trigger] s[i] as nat == b[i] as nat by {
                assert(32 <= b[i] <= 126 || b[i] == 9);
            }
        }
    }
}

/// Whether some bytes are an envelope: a byte of flags, the length of the payload
/// in four bytes with the most significant one first, and the payload.
pub open spec fn is_envelope(b: Seq<u8>, flags: u8, payload: Seq<u8>) -> bool {
    &&& b.len() == 5 + payload.len()
    &&& b[0] == flags
    &&& b[1] * 0x100_0000 + b[2] * 0x1_0000 + b[3] * 0x100 + b[4] == payload.len()
    &&& b.skip(5) == payload
}

/// A payload is framed as an envelope.
pub proof fn framing_makes_an_envelope(flags: u8, payload: Seq<u8>)
    requires
        payload.len() <= u32::MAX,
    ensures
        is_envelope(envelope::framed(flags, payload), flags, payload),
{
    let b = envelope::framed(flags, payload);
    envelope::length_bytes_round_trip(payload.len(), flags, payload);
    assert(b.skip(5) =~= payload);
}

/// The four bytes of a length, most significant first.
proof fn bytes_of_a_length(a: u8, b: u8, c: u8, d: u8, n: nat)
    requires
        a * 0x100_0000 + b * 0x1_0000 + c * 0x100 + d == n,
    ensures
        n <= u32::MAX,
        envelope::length_bytes(n) == seq![a, b, c, d],
{
    let low = c * 0x100 + d;
    let mid = b * 0x100 + c;
    assert(n / 256 == a * 0x1_0000 + b * 0x100 + c);
    assert(n % 256 == d);
    assert(n / 65536 == a * 0x100 + b) by {
        assert(0 <= low < 65536);
    }
    assert(n / 16777216 == a) by {
        assert(0 <= b * 0x1_0000 + low < 16777216);
    }
    assert((a * 0x1_0000 + mid) % 256 == c);
    assert((a * 0x100 + b) % 256 == b);
    assert(envelope::length_bytes(n) =~= seq![a, b, c, d]);
}

/// An envelope at the front of a buffer is taken out of it whole, with just its
/// own bytes, when its payload is within the limit; else it is refused for its
/// size, before its payload has arrived.
pub proof fn envelopes_are_taken_one_by_one(
    b: Seq<u8>,
    flags: u8,
    payload: Seq<u8>,
    rest: Seq<u8>,
    limit: nat,
    n: int,
)
    requires
        is_envelope(b, flags, payload),
    ensures
        b == envelope::framed(flags, payload),
        payload.len() <= limit ==> envelope::take_envelope(b + rest, limit) == (
        envelope::Taken::Frame { flags, payload, rest }),
        payload.len() <= limit && 0 <= n < b.len() ==> envelope::take_envelope(b.take(n), limit)
            == envelope::Taken::Incomplete,
        payload.len() > limit && 5 <= n <= b.len() ==> envelope::take_envelope(b.take(n), limit)
            == envelope::Taken::TooLarge(payload.len()),
{
    assert(b =~= envelope::framed(flags, payload)) by {
        let rebuilt = envelope::framed(flags, payload);
        bytes_of_a_length(b[1], b[2], b[3], b[4], payload.len());
        assert forall|i: int| 5 <= i < b.len() implies b[i] == rebuilt[i] by {
            assert(b.skip(5)[i - 5] == payload[i - 5]);
        }
    }
    if payload.len() <= limit {
        envelope::take_inverts_framing(flags, payload, rest, limit);
    }
    if 5 <= n <= b.len() {
        assert(envelope::length_at(b.take(n), 0) == payload.len());
    }
}

/// The bits of an envelope's flags: compressed, end of a Connect stream, trailers
/// of gRPC-Web.
pub proof fn flags_are_bits(flags: u8)
    ensures
        envelope::has_compressed_flag(flags) <==> flags % 2 == 1,
        envelope::has_end_stream_flag(flags) <==> flags / 2 % 2 == 1,
        envelope::has_trailer_flag(flags) <==> flags >= 128,
{
    assert((flags & 1 != 0) == (flags % 2 == 1)) by (bit_vector);
    assert((flags & 2 != 0) == (flags / 2 % 2 == 1)) by (bit_vector);
    assert((flags & 0x80 != 0) == (flags >= 128)) by (bit_vector);
}

} // verus!
