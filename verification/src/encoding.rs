//! Texts for bytes and bytes for texts: UTF-8, percent-encoding and base64.

use base64::Engine;
use vstd::prelude::*;

verus! {

/// The text that bytes stand for when invalid UTF-8 is replaced.
pub uninterp spec fn lossy_text(b: Seq<u8>) -> Seq<char>;

/// `String::from_utf8_lossy` gives the text of valid UTF-8, and some text that
/// depends on the bytes alone for other bytes.
#[verifier::external_body]
pub(crate) fn utf8_lossy(b: &[u8]) -> (r: String)
    ensures
        r@ == lossy_text(b@),
        vstd::utf8::valid_utf8(b@) ==> r@ == vstd::utf8::decode_utf8(b@),
{
    String::from_utf8_lossy(b).into_owned()
}

/// Bytes as text: what they encode where they are valid UTF-8, and what replacing
/// the invalid parts gives elsewhere.
pub open spec fn utf8_text(b: Seq<u8>) -> Seq<char> {
    if vstd::utf8::valid_utf8(b) {
        vstd::utf8::decode_utf8(b)
    } else {
        lossy_text(b)
    }
}

/// `String::from_utf8` gives the text of valid UTF-8 and fails on other bytes.
#[verifier::external_body]
pub(crate) fn utf8_string(b: &[u8]) -> (r: Option<String>)
    ensures
        match r {
            Some(s) => vstd::utf8::valid_utf8(b@) && s@ == vstd::utf8::decode_utf8(b@),
            None => !vstd::utf8::valid_utf8(b@),
        },
{
    String::from_utf8(b.to_vec()).ok()
}

/// The value of a hexadecimal digit, in either case.
pub open spec fn hex_value(b: u8) -> Option<u8> {
    if 48 <= b <= 57 {
        Some((b - 48) as u8)
    } else if 65 <= b <= 70 {
        Some((b - 55) as u8)
    } else if 97 <= b <= 102 {
        Some((b - 87) as u8)
    } else {
        None
    }
}

/// Bytes with every `%` that two hexadecimal digits follow replaced by the byte
/// they stand for. Any other `%` stays.
pub open spec fn percent_decoded(b: Seq<u8>) -> Seq<u8>
    decreases b.len(),
{
    if b.len() == 0 {
        Seq::empty()
    } else if b[0] == 37 && b.len() >= 3 && hex_value(b[1]) is Some && hex_value(b[2]) is Some {
        seq![(hex_value(b[1])->Some_0 * 16 + hex_value(b[2])->Some_0) as u8] + percent_decoded(
            b.skip(3),
        )
    } else {
        seq![b[0]] + percent_decoded(b.skip(1))
    }
}

/// `percent_encoding::percent_decode_str` replaces the percent-encoded bytes of
/// a text and leaves all others.
#[verifier::external_body]
fn percent_decode(s: &str) -> (r: Vec<u8>)
    ensures
        r@ == percent_decoded(vstd::utf8::encode_utf8(s@)),
{
    percent_encoding::percent_decode_str(s).collect()
}

/// Decodes the percent-encoded text of a gRPC status message.
pub fn grpc_percent_decode(s: &str) -> (r: String)
    ensures
        r@ == utf8_text(percent_decoded(vstd::utf8::encode_utf8(s@))),
{
    utf8_lossy(percent_decode(s).as_slice())
}

/// Whether a byte is an ASCII letter or digit.
pub open spec fn is_alphanumeric(b: u8) -> bool {
    48 <= b <= 57 || 65 <= b <= 90 || 97 <= b <= 122
}

/// The upper-case hexadecimal digit of a number below sixteen.
pub open spec fn hex_digit(n: u8) -> char {
    if n < 10 {
        (48 + n) as char
    } else {
        (55 + n) as char
    }
}

/// Bytes as text: ASCII letters and digits as they are, every other byte as `%`
/// and two hexadecimal digits.
pub open spec fn percent_encoded(b: Seq<u8>) -> Seq<char>
    decreases b.len(),
{
    if b.len() == 0 {
        Seq::empty()
    } else if is_alphanumeric(b[0]) {
        seq![b[0] as char] + percent_encoded(b.skip(1))
    } else {
        seq!['%', hex_digit((b[0] / 16) as u8), hex_digit((b[0] % 16) as u8)] + percent_encoded(
            b.skip(1),
        )
    }
}

/// `percent_encoding::percent_encode`, with the set of everything that is not
/// alphanumeric, encodes every byte that is no ASCII letter or digit.
#[verifier::external_body]
pub(crate) fn percent_encode(b: &[u8]) -> (r: String)
    ensures
        r@ == percent_encoded(b@),
{
    percent_encoding::percent_encode(b, percent_encoding::NON_ALPHANUMERIC).to_string()
}

/// The digit for a number below 64 in base64: letters, digits and two more
/// characters.
pub open spec fn base64_digit(n: nat, c62: char, c63: char) -> char {
    if n < 26 {
        (65 + n) as char
    } else if n < 52 {
        (97 + n - 26) as char
    } else if n < 62 {
        (48 + n - 52) as char
    } else if n == 62 {
        c62
    } else {
        c63
    }
}

/// A byte, or zero beyond the end.
pub open spec fn byte_or_zero(b: Seq<u8>, i: int) -> nat {
    if 0 <= i < b.len() {
        b[i] as nat
    } else {
        0
    }
}

/// The `i`th group of six bits of some bytes.
pub open spec fn sextet(b: Seq<u8>, i: int) -> nat {
    let k = i / 4 * 3;
    if i % 4 == 0 {
        byte_or_zero(b, k) / 4
    } else if i % 4 == 1 {
        byte_or_zero(b, k) % 4 * 16 + byte_or_zero(b, k + 1) / 16
    } else if i % 4 == 2 {
        byte_or_zero(b, k + 1) % 16 * 4 + byte_or_zero(b, k + 2) / 64
    } else {
        byte_or_zero(b, k + 2) % 64
    }
}

/// Bytes in base64 without padding: a digit for every started group of six
/// bits.
pub open spec fn base64_text(b: Seq<u8>, c62: char, c63: char) -> Seq<char> {
    Seq::new((b.len() * 4 + 2) / 3, |i: int| base64_digit(sextet(b, i), c62, c63))
}

/// Bytes in base64 with the alphabet that is safe in URLs, without padding.
pub open spec fn url_safe_base64(b: Seq<u8>) -> Seq<char> {
    base64_text(b, '-', '_')
}

/// Bytes in base64 with the standard alphabet, without padding.
pub open spec fn standard_base64(b: Seq<u8>) -> Seq<char> {
    base64_text(b, '+', '/')
}

/// `Engine::encode` of `base64::engine::general_purpose::URL_SAFE_NO_PAD`
/// writes base64 with the URL-safe alphabet and without padding.
#[verifier::external_body]
pub(crate) fn encode_url_safe(b: &[u8]) -> (r: String)
    ensures
        r@ == url_safe_base64(b@),
{
    base64::engine::general_purpose::URL_SAFE_NO_PAD.encode(b)
}

/// `Engine::encode` of `base64::engine::general_purpose::STANDARD_NO_PAD`
/// writes base64 with the standard alphabet and without padding.
#[verifier::external_body]
pub(crate) fn encode_standard(b: &[u8]) -> (r: String)
    ensures
        r@ == standard_base64(b@),
{
    base64::engine::general_purpose::STANDARD_NO_PAD.encode(b)
}

/// Bytes in base64 with the standard alphabet, filled up with `=` to a multiple
/// of four characters.
pub open spec fn padded_base64(b: Seq<u8>) -> Seq<char> {
    standard_base64(b) + Seq::new(((3 - b.len() % 3) % 3) as nat, |i: int| '=')
}

/// The bytes of a text in standard base64 with padding.
pub open spec fn padded_decoded(s: Seq<char>) -> Option<Seq<u8>> {
    if exists|b: Seq<u8>| #[trigger] padded_base64(b) == s {
        Some(choose|b: Seq<u8>| #[trigger] padded_base64(b) == s)
    } else {
        None
    }
}

/// The bytes of a text in standard base64 without padding.
pub open spec fn unpadded_decoded(s: Seq<char>) -> Option<Seq<u8>> {
    if exists|b: Seq<u8>| #[trigger] standard_base64(b) == s {
        Some(choose|b: Seq<u8>| #[trigger] standard_base64(b) == s)
    } else {
        None
    }
}

/// `Engine::decode` of `base64::engine::general_purpose::STANDARD` reads
/// standard base64 with padding. It accepts just the texts that its `encode`
/// writes: the padding must be complete and unused bits must be zero.
#[verifier::external_body]
fn decode_padded(s: &str) -> (r: Option<Vec<u8>>)
    ensures
        match r {
            Some(b) => padded_base64(b@) == s@,
            None => padded_decoded(s@) is None,
        },
{
    base64::engine::general_purpose::STANDARD.decode(s).ok()
}

/// `Engine::decode` of `base64::engine::general_purpose::STANDARD_NO_PAD` reads
/// standard base64 without padding. It accepts just the texts that its `encode`
/// writes: there must be no padding and unused bits must be zero.
#[verifier::external_body]
fn decode_unpadded(s: &str) -> (r: Option<Vec<u8>>)
    ensures
        match r {
            Some(b) => standard_base64(b@) == s@,
            None => unpadded_decoded(s@) is None,
        },
{
    base64::engine::general_purpose::STANDARD_NO_PAD.decode(s).ok()
}

/// The bytes of a text in standard base64, with or without padding.
pub open spec fn standard_decoded(s: Seq<char>) -> Option<Seq<u8>> {
    match padded_decoded(s) {
        Some(b) => Some(b),
        None => unpadded_decoded(s),
    }
}

/// Reads standard base64, with or without padding.
pub fn decode_standard(s: &str) -> (r: Option<Vec<u8>>)
    ensures
        match r {
            Some(b) => standard_decoded(s@) == Some(b@),
            None => standard_decoded(s@) is None,
        },
{
    match decode_padded(s) {
        Some(b) => {
            proof {
                padded_decoding_inverts_encoding(b@);
            }
            Some(b)
        },
        None => match decode_unpadded(s) {
            Some(b) => {
                proof {
                    unpadded_decoding_inverts_encoding(b@);
                }
                Some(b)
            },
            None => None,
        },
    }
}

/// Percent-encoded bytes are made of letters, digits and `%` alone, and
/// decoding them gives the bytes back.
pub proof fn percent_decoding_inverts_encoding(b: Seq<u8>)
    ensures
        forall|i: int|
            0 <= i < percent_encoded(b).len() ==> {
                let c = #[trigger] percent_encoded(b)[i];
                c == '%' || '0' <= c <= '9' || 'A' <= c <= 'Z' || 'a' <= c <= 'z'
            },
        percent_decoded(percent_encoded(b).map_values(|c: char| c as u8)) == b,
    decreases b.len(),
{
    let text = percent_encoded(b);
    let bytes = text.map_values(|c: char| c as u8);
    if b.len() == 0 {
        assert(percent_decoded(bytes) =~= b);
    } else {
        let tail = percent_encoded(b.skip(1));
        percent_decoding_inverts_encoding(b.skip(1));
        assert forall|i: int| 0 <= i < text.len() implies {
            let c = #[trigger] text[i];
            c == '%' || '0' <= c <= '9' || 'A' <= c <= 'Z' || 'a' <= c <= 'z'
        } by {
            let n = text.len() - tail.len();
            if i >= n {
                assert(text[i] == tail[i - n]);
            }
        }
        let rest = tail.map_values(|c: char| c as u8);
        if is_alphanumeric(b[0]) {
            assert(bytes[0] == b[0]);
            assert(bytes.skip(1) =~= rest);
            assert(percent_decoded(bytes) =~= seq![b[0]] + percent_decoded(rest));
        } else {
            assert(bytes[0] == 37);
            assert(bytes.skip(3) =~= rest);
            assert(hex_value(bytes[1]) == Some((b[0] / 16) as u8));
            assert(hex_value(bytes[2]) == Some((b[0] % 16) as u8));
            assert(percent_decoded(bytes) =~= seq![b[0]] + percent_decoded(rest));
        }
        assert(seq![b[0]] + b.skip(1) =~= b);
    }
}

/// A group of six bits is below 64.
proof fn sextet_bound(b: Seq<u8>, i: int)
    requires
        i >= 0,
    ensures
        sextet(b, i) < 64,
{
}

/// URL-safe base64 is made of letters, digits, `-` and `_` alone.
pub proof fn url_safe_base64_is_url_safe(b: Seq<u8>, i: int)
    requires
        0 <= i < url_safe_base64(b).len(),
    ensures
        ({
            let c = url_safe_base64(b)[i];
            c == '-' || c == '_' || '0' <= c <= '9' || 'A' <= c <= 'Z' || 'a' <= c <= 'z'
        }),
{
    sextet_bound(b, i);
}

/// Whether two characters can stand for 62 and 63: they are different, and
/// neither is a letter or a digit.
spec fn are_extra_digits(c62: char, c63: char) -> bool {
    &&& c62 != c63
    &&& !('0' <= c62 <= '9' || 'A' <= c62 <= 'Z' || 'a' <= c62 <= 'z')
    &&& !('0' <= c63 <= '9' || 'A' <= c63 <= 'Z' || 'a' <= c63 <= 'z')
}

/// Different numbers have different digits.
proof fn digits_are_distinct(m: nat, n: nat, c62: char, c63: char)
    requires
        m < 64,
        n < 64,
        are_extra_digits(c62, c63),
        base64_digit(m, c62, c63) == base64_digit(n, c62, c63),
    ensures
        m == n,
{
}

/// The bytes that groups of six bits came from.
proof fn byte_from_sextets(b: Seq<u8>, k: int)
    requires
        0 <= k < b.len(),
    ensures
        k % 3 == 0 ==> b[k] == sextet(b, k / 3 * 4) * 4 + sextet(b, k / 3 * 4 + 1) / 16,
        k % 3 == 1 ==> b[k] == sextet(b, k / 3 * 4 + 1) % 16 * 16 + sextet(b, k / 3 * 4 + 2) / 4,
        k % 3 == 2 ==> b[k] == sextet(b, k / 3 * 4 + 2) % 4 * 64 + sextet(b, k / 3 * 4 + 3),
{
    let g = k / 3;
    assert((g * 4) / 4 == g && (g * 4 + 1) / 4 == g && (g * 4 + 2) / 4 == g && (g * 4 + 3) / 4 == g);
    assert((g * 4) % 4 == 0 && (g * 4 + 1) % 4 == 1 && (g * 4 + 2) % 4 == 2 && (g * 4 + 3) % 4 == 3);
}

/// Equal texts in base64 come from equal bytes.
proof fn base64_is_injective(a: Seq<u8>, b: Seq<u8>, c62: char, c63: char)
    requires
        are_extra_digits(c62, c63),
        base64_text(a, c62, c63) == base64_text(b, c62, c63),
    ensures
        a == b,
{
    let s = base64_text(a, c62, c63);
    assert(s.len() == (a.len() * 4 + 2) / 3);
    assert(s.len() == (b.len() * 4 + 2) / 3) by {
        assert(base64_text(b, c62, c63).len() == (b.len() * 4 + 2) / 3);
    }
    assert(a.len() == b.len());
    assert forall|i: int| 0 <= i < s.len() implies sextet(a, i) == sextet(b, i) by {
        assert(base64_text(a, c62, c63)[i] == base64_text(b, c62, c63)[i]);
        assert(base64_text(a, c62, c63)[i] == base64_digit(sextet(a, i), c62, c63));
        assert(base64_text(b, c62, c63)[i] == base64_digit(sextet(b, i), c62, c63));
        sextet_bound(a, i);
        sextet_bound(b, i);
        digits_are_distinct(sextet(a, i), sextet(b, i), c62, c63);
    }
    assert forall|k: int| 0 <= k < a.len() implies a[k] == b[k] by {
        byte_from_sextets(a, k);
        byte_from_sextets(b, k);
        let g = k / 3 * 4;
        if k % 3 == 0 {
            assert(g + 1 < s.len());
        } else if k % 3 == 1 {
            assert(g + 2 < s.len());
        } else {
            assert(g + 3 < s.len());
        }
    }
    assert(a =~= b);
}

/// URL-safe base64 tells all messages apart: equal texts come from equal bytes.
pub proof fn url_safe_base64_is_injective(a: Seq<u8>, b: Seq<u8>)
    requires
        url_safe_base64(a) == url_safe_base64(b),
    ensures
        a == b,
{
    base64_is_injective(a, b, '-', '_');
}

/// Standard base64 holds no `=`.
proof fn standard_base64_has_no_padding(b: Seq<u8>, i: int)
    requires
        0 <= i < standard_base64(b).len(),
    ensures
        standard_base64(b)[i] != '=',
{
    sextet_bound(b, i);
}

/// If the text of some bytes, filled up, begins with the text of others, the
/// latter is no longer than the former without its filling.
proof fn unpadded_part_is_no_longer(a: Seq<u8>, b: Seq<u8>, s: Seq<char>)
    requires
        standard_base64(b).len() <= s.len(),
        s.take(standard_base64(b).len() as int) == standard_base64(b),
        standard_base64(a).len() <= s.len(),
        forall|i: int| standard_base64(a).len() <= i < s.len() ==> #[trigger] s[i] == '=',
    ensures
        standard_base64(b).len() <= standard_base64(a).len(),
{
    let n = standard_base64(a).len() as int;
    if n < standard_base64(b).len() {
        standard_base64_has_no_padding(b, n);
        assert(s.take(standard_base64(b).len() as int)[n] == s[n]);
        assert(s[n] == '=');
    }
}

/// Reading standard base64 with padding gives back what was written.
pub proof fn padded_decoding_inverts_encoding(b: Seq<u8>)
    ensures
        padded_decoded(padded_base64(b)) == Some(b),
{
    let s = padded_base64(b);
    let a = choose|a: Seq<u8>| #[trigger] padded_base64(a) == s;
    assert(padded_base64(a) == s);
    assert(s.take(standard_base64(b).len() as int) =~= standard_base64(b));
    assert(padded_base64(a).take(standard_base64(a).len() as int) =~= standard_base64(a));
    assert forall|i: int| standard_base64(a).len() <= i < s.len() implies #[trigger] s[i]
        == '=' by {
        assert(padded_base64(a)[i] == '=');
    }
    assert forall|i: int| standard_base64(b).len() <= i < s.len() implies #[trigger] s[i]
        == '=' by {
        assert(padded_base64(b)[i] == '=');
    }
    unpadded_part_is_no_longer(a, b, s);
    unpadded_part_is_no_longer(b, a, s);
    base64_is_injective(a, b, '+', '/');
}

/// Reading standard base64 without padding gives back what was written.
pub proof fn unpadded_decoding_inverts_encoding(b: Seq<u8>)
    ensures
        unpadded_decoded(standard_base64(b)) == Some(b),
{
    let a = choose|a: Seq<u8>| #[trigger] standard_base64(a) == standard_base64(b);
    assert(standard_base64(a) == standard_base64(b));
    base64_is_injective(a, b, '+', '/');
}

/// Bytes in standard base64 are read back whether they were written with padding
/// or without.
pub proof fn standard_decoding_inverts_encoding(b: Seq<u8>)
    ensures
        standard_decoded(padded_base64(b)) == Some(b),
        standard_decoded(standard_base64(b)) == Some(b),
{
    padded_decoding_inverts_encoding(b);
    unpadded_decoding_inverts_encoding(b);
    let s = standard_base64(b);
    if let Some(a) = padded_decoded(s) {
        assert(padded_base64(a) == s);
        assert(s.take(standard_base64(a).len() as int) =~= standard_base64(a)) by {
            assert(padded_base64(a).take(standard_base64(a).len() as int) =~= standard_base64(a));
        }
        assert(standard_base64(a).len() == s.len()) by {
            if standard_base64(a).len() < s.len() {
                let n = standard_base64(a).len() as int;
                assert(padded_base64(a)[n] == '=');
                standard_base64_has_no_padding(b, n);
            }
        }
        assert(s.take(s.len() as int) =~= s);
        base64_is_injective(a, b, '+', '/');
    }
}

} // verus!
