//! The error details in a gRPC status: a `google.rpc.Status` protobuf message
//! whose third field repeats `google.protobuf.Any`.

use vstd::prelude::*;
use crate::encoding;
use crate::error::ErrorDetail;
use crate::error;
use crate::text;

verus! {

/// A number in base 128, least significant group first, and the position after
/// it. At most ten bytes, of which `shift` came before.
pub open spec fn varint_at(b: Seq<u8>, pos: int, shift: nat) -> Option<(nat, int)>
    decreases 10 - shift,
{
    if shift >= 10 || pos < 0 || pos >= b.len() {
        None
    } else if b[pos] < 128 {
        Some((b[pos] as nat, pos + 1))
    } else {
        match varint_at(b, pos + 1, shift + 1) {
            Some((high, next)) => Some(((b[pos] - 128 + high * 128) as nat, next)),
            None => None,
        }
    }
}

/// One field of a protobuf message: its number and, if it has a length, its
/// bytes.
pub type WireField = (nat, Option<Seq<u8>>);

/// The field that begins at a position, and the position after it.
pub open spec fn field_at(b: Seq<u8>, pos: int) -> Option<(WireField, int)> {
    match varint_at(b, pos, 0) {
        None => None,
        Some((key, body)) => {
            let number = key / 8;
            let kind = key % 8;
            if key > u64::MAX || number == 0 {
                None
            } else if kind == 0 {
                match varint_at(b, body, 0) {
                    Some((_, next)) => Some(((number, None), next)),
                    None => None,
                }
            } else if kind == 1 && body + 8 <= b.len() {
                Some(((number, None), body + 8))
            } else if kind == 5 && body + 4 <= b.len() {
                Some(((number, None), body + 4))
            } else if kind == 2 {
                match varint_at(b, body, 0) {
                    Some((length, start)) => if start + length <= b.len() {
                        Some(
                            (
                                (number, Some(b.subrange(start, start + length))),
                                (start + length) as int,
                            ),
                        )
                    } else {
                        None
                    },
                    None => None,
                }
            } else {
                None
            }
        },
    }
}

/// A number in base 128 ends after where it begins, within the bytes.
proof fn varint_advances(b: Seq<u8>, pos: int, shift: nat)
    ensures
        varint_at(b, pos, shift) matches Some((_, next)) ==> pos < next <= b.len(),
    decreases 10 - shift,
{
    if shift < 10 && 0 <= pos < b.len() && b[pos] >= 128 {
        varint_advances(b, pos + 1, shift + 1);
    }
}

/// A field ends after where it begins, within the bytes.
proof fn field_advances(b: Seq<u8>, pos: int)
    ensures
        field_at(b, pos) matches Some((_, next)) ==> pos < next <= b.len(),
{
    varint_advances(b, pos, 0);
    if let Some((_, body)) = varint_at(b, pos, 0) {
        varint_advances(b, body, 0);
    }
}

/// All fields from a position on; nothing when the bytes are malformed.
pub open spec fn fields_from(b: Seq<u8>, pos: int) -> Option<Seq<WireField>>
    decreases b.len() - pos,
{
    if pos >= b.len() {
        Some(Seq::empty())
    } else {
        match field_at(b, pos) {
            None => None,
            Some((field, next)) => if next <= pos || next > b.len() {
                None
            } else {
                match fields_from(b, next) {
                    None => None,
                    Some(rest) => Some(seq![field] + rest),
                }
            },
        }
    }
}

/// The bytes of the last field with a number; empty when there is none.
pub open spec fn last_bytes(fields: Seq<WireField>, number: nat) -> Seq<u8>
    decreases fields.len(),
{
    if fields.len() == 0 {
        Seq::empty()
    } else if fields.last().0 == number && fields.last().1 is Some {
        fields.last().1->Some_0
    } else {
        last_bytes(fields.drop_last(), number)
    }
}

/// What follows the last slash of a text; all of it when there is none.
pub open spec fn after_last_slash(s: Seq<char>) -> Seq<char>
    decreases s.len(),
{
    if s.len() == 0 || s.last() == '/' {
        Seq::empty()
    } else {
        after_last_slash(s.drop_last()).push(s.last())
    }
}

/// The detail in a `google.protobuf.Any`: the type's name without the prefix of
/// its URL, and the payload in base64.
pub open spec fn detail_of(b: Seq<u8>) -> Option<error::DetailView> {
    match fields_from(b, 0) {
        None => None,
        Some(fields) => {
            let url = last_bytes(fields, 1);
            if vstd::utf8::valid_utf8(url) {
                Some(
                    error::DetailView {
                        type_url: after_last_slash(vstd::utf8::decode_utf8(url)),
                        value: Some(encoding::standard_base64(last_bytes(fields, 2))),
                        debug: None,
                    },
                )
            } else {
                None
            }
        },
    }
}

/// The details among the fields of a status; nothing when one is malformed.
pub open spec fn details_among(fields: Seq<WireField>) -> Option<Seq<error::DetailView>>
    decreases fields.len(),
{
    if fields.len() == 0 {
        Some(Seq::empty())
    } else {
        match details_among(fields.drop_last()) {
            None => None,
            Some(before) => if fields.last().0 == 3 && fields.last().1 is Some {
                match detail_of(fields.last().1->Some_0) {
                    None => None,
                    Some(d) => Some(before.push(d)),
                }
            } else {
                Some(before)
            },
        }
    }
}

/// The details in a status; none at all when the bytes are malformed.
pub open spec fn details_of(b: Seq<u8>) -> Seq<error::DetailView> {
    match fields_from(b, 0) {
        None => Seq::empty(),
        Some(fields) => match details_among(fields) {
            None => Seq::empty(),
            Some(details) => details,
        },
    }
}

/// One field of a protobuf message.
struct Field {
    number: u64,
    bytes: Option<Vec<u8>>,
}

impl View for Field {
    type V = WireField;

    closed spec fn view(&self) -> WireField {
        (
            self.number as nat,
            match self.bytes {
                Some(b) => Some(b@),
                None => None,
            },
        )
    }
}

/// The views of some fields.
spec fn wire_views(fields: Seq<Field>) -> Seq<WireField> {
    fields.map_values(|f: Field| f@)
}

/// A number in base 128 with at most ten bytes is below two to the 70.
proof fn varint_bound(b: Seq<u8>, pos: int, shift: nat)
    requires
        shift <= 10,
    ensures
        varint_at(b, pos, shift) matches Some((v, _)) ==> v < vstd::arithmetic::power::pow(
            128,
            (10 - shift) as nat,
        ),
    decreases 10 - shift,
{
    if shift < 10 && 0 <= pos < b.len() {
        let p = vstd::arithmetic::power::pow(128, (9 - shift) as nat);
        assert(vstd::arithmetic::power::pow(128, (10 - shift) as nat) == 128 * p) by {
            reveal(vstd::arithmetic::power::pow);
        }
        vstd::arithmetic::power::lemma_pow_positive(128, (9 - shift) as nat);
        if b[pos] >= 128 {
            varint_bound(b, pos + 1, shift + 1);
        }
    }
}

/// Reads a number in base 128 and the position after it.
fn read_varint(b: &[u8], pos: usize, shift: usize) -> (r: Option<(u128, usize)>)
    requires
        pos <= b.len(),
        shift <= 10,
    ensures
        match r {
            Some((v, next)) => varint_at(b@, pos as int, shift as nat) == Some(
                (v as nat, next as int),
            ) && next <= b.len() && v < vstd::arithmetic::power::pow(128, (10 - shift) as nat),
            None => varint_at(b@, pos as int, shift as nat) is None,
        },
    decreases 10 - shift,
{
    proof {
        varint_bound(b@, pos as int, shift as nat);
    }
    if shift >= 10 || pos >= b.len() {
        return None;
    }
    if b[pos] < 128 {
        return Some((b[pos] as u128, pos + 1));
    }
    match read_varint(b, pos + 1, shift + 1) {
        Some((high, next)) => {
            proof {
                vstd::arithmetic::power::lemma_pow_increases(128, (9 - shift) as nat, 9);
                assert(vstd::arithmetic::power::pow(128, 9) == 0x8000_0000_0000_0000) by {
                    reveal_with_fuel(vstd::arithmetic::power::pow, 10);
                }
            }
            Some(((b[pos] - 128) as u128 + high * 128, next))
        },
        None => None,
    }
}

/// Reads one field and the position after it.
fn read_field(b: &[u8], pos: usize) -> (r: Option<(Field, usize)>)
    requires
        pos <= b.len(),
    ensures
        match r {
            Some((f, next)) => field_at(b@, pos as int) == Some((f@, next as int)) && next
                <= b.len(),
            None => field_at(b@, pos as int) is None,
        },
{
    match read_varint(b, pos, 0) {
        None => None,
        Some((key, body)) => {
            if key > u64::MAX as u128 {
                return None;
            }
            let number: u64 = (key / 8) as u64;
            let kind: u128 = key % 8;
            if number == 0 {
                None
            } else if kind == 0 {
                match read_varint(b, body, 0) {
                    Some((_, next)) => Some((Field { number, bytes: None }, next)),
                    None => None,
                }
            } else if kind == 1 && b.len() - body >= 8 {
                Some((Field { number, bytes: None }, body + 8))
            } else if kind == 5 && b.len() - body >= 4 {
                Some((Field { number, bytes: None }, body + 4))
            } else if kind == 2 {
                match read_varint(b, body, 0) {
                    Some((length, start)) => {
                        if length <= (b.len() - start) as u128 {
                            let end: usize = start + length as usize;
                            let bytes = vstd::slice::slice_to_vec(
                                vstd::slice::slice_subrange(b, start, end),
                            );
                            Some((Field { number, bytes: Some(bytes) }, end))
                        } else {
                            None
                        }
                    },
                    None => None,
                }
            } else {
                None
            }
        },
    }
}

/// Reads all fields.
fn read_fields(b: &[u8]) -> (r: Option<Vec<Field>>)
    ensures
        match r {
            Some(fields) => fields_from(b@, 0) == Some(wire_views(fields@)),
            None => fields_from(b@, 0) is None,
        },
{
    let mut fields: Vec<Field> = Vec::new();
    let mut pos: usize = 0;
    proof {
        if let Some(rest) = fields_from(b@, 0) {
            assert(wire_views(fields@) + rest =~= rest);
        }
    }
    while pos < b.len()
        invariant
            pos <= b.len(),
            match fields_from(b@, pos as int) {
                Some(rest) => fields_from(b@, 0) == Some(wire_views(fields@) + rest),
                None => fields_from(b@, 0) is None,
            },
        decreases b.len() - pos,
    {
        proof {
            field_advances(b@, pos as int);
        }
        match read_field(b, pos) {
            None => {
                return None;
            },
            Some((field, next)) => {
                let ghost before = fields@;
                fields.push(field);
                proof {
                    assert(wire_views(fields@) =~= wire_views(before).push(field@));
                    if let Some(rest) = fields_from(b@, next as int) {
                        assert(wire_views(before) + (seq![field@] + rest) =~= wire_views(fields@)
                            + rest);
                    }
                }
                pos = next;
            },
        }
    }
    assert(wire_views(fields@) + Seq::<WireField>::empty() =~= wire_views(fields@));
    Some(fields)
}

/// Copies the bytes of the last field with a number.
fn find_last(fields: &Vec<Field>, number: u64) -> (r: Vec<u8>)
    ensures
        r@ == last_bytes(wire_views(fields@), number as nat),
{
    let ghost views = wire_views(fields@);
    let mut i: usize = fields.len();
    assert(views.take(i as int) =~= views);
    while i > 0
        invariant
            i <= fields@.len(),
            views == wire_views(fields@),
            last_bytes(views, number as nat) == last_bytes(views.take(i as int), number as nat),
        decreases i,
    {
        i -= 1;
        proof {
            assert(views.take(i + 1).drop_last() =~= views.take(i as int));
            assert(views.take(i + 1).last() == fields@[i as int]@);
        }
        if fields[i].number == number {
            if let Some(b) = &fields[i].bytes {
                return vstd::slice::slice_to_vec(b.as_slice());
            }
        }
    }
    Vec::new()
}

/// Copies what follows the last slash of a text.
fn strip_url(s: &str) -> (r: String)
    ensures
        r@ == after_last_slash(s@),
{
    let chars = text::chars_of(s);
    let mut out = String::new();
    let mut i: usize = 0;
    while i < chars.len()
        invariant
            i <= chars@.len(),
            out@ == after_last_slash(chars@.take(i as int)),
        decreases chars@.len() - i,
    {
        proof {
            assert(chars@.take(i + 1).drop_last() =~= chars@.take(i as int));
            assert(chars@.take(i + 1).last() == chars@[i as int]);
        }
        if chars[i] == '/' {
            out = String::new();
        } else {
            out.push(chars[i]);
        }
        i += 1;
    }
    assert(chars@.take(i as int) =~= chars@);
    out
}

/// Reads the detail in a `google.protobuf.Any`.
fn read_detail(b: &[u8]) -> (r: Option<ErrorDetail>)
    ensures
        match r {
            Some(d) => detail_of(b@) == Some(d@),
            None => detail_of(b@) is None,
        },
{
    match read_fields(b) {
        None => None,
        Some(fields) => {
            let url = find_last(&fields, 1);
            match encoding::utf8_string(url.as_slice()) {
                None => None,
                Some(url) => {
                    let value = find_last(&fields, 2);
                    Some(
                        ErrorDetail {
                            type_url: strip_url(url.as_str()),
                            value: Some(encoding::encode_standard(value.as_slice())),
                            debug: None,
                        },
                    )
                },
            }
        },
    }
}

/// Reads the details in a `google.rpc.Status`; none at all when the bytes are
/// malformed.
pub fn decode_details(b: &[u8]) -> (r: Vec<ErrorDetail>)
    ensures
        error::detail_views(r@) == details_of(b@),
{
    let mut details: Vec<ErrorDetail> = Vec::new();
    assert(error::detail_views(details@) =~= Seq::empty());
    let fields = match read_fields(b) {
        None => {
            return details;
        },
        Some(fields) => fields,
    };
    let ghost views = wire_views(fields@);
    let mut i: usize = 0;
    assert(views.take(0) =~= Seq::empty());
    while i < fields.len()
        invariant
            i <= fields@.len(),
            views == wire_views(fields@),
            fields_from(b@, 0) == Some(views),
            details_among(views.take(i as int)) == Some(error::detail_views(details@)),
        decreases fields@.len() - i,
    {
        proof {
            assert(views.take(i + 1).drop_last() =~= views.take(i as int));
            assert(views.take(i + 1).last() == fields@[i as int]@);
        }
        if fields[i].number == 3 {
            if let Some(bytes) = &fields[i].bytes {
                match read_detail(bytes.as_slice()) {
                    None => {
                        proof {
                            malformed_detail(views, i as int);
                        }
                        let none: Vec<ErrorDetail> = Vec::new();
                        assert(error::detail_views(none@) =~= Seq::empty());
                        return none;
                    },
                    Some(d) => {
                        let ghost before = details@;
                        details.push(d);
                        assert(error::detail_views(details@) =~= error::detail_views(before).push(
                            d@,
                        ));
                    },
                }
            }
        }
        i += 1;
    }
    assert(views.take(i as int) =~= views);
    details
}

/// One malformed detail makes all of them unusable.
proof fn malformed_detail(fields: Seq<WireField>, i: int)
    requires
        0 <= i < fields.len(),
        details_among(fields.take(i + 1)) is None,
    ensures
        details_among(fields) is None,
    decreases fields.len() - i,
{
    if i + 1 < fields.len() {
        assert(fields.take(i + 2).drop_last() =~= fields.take(i + 1));
        malformed_detail(fields, i + 1);
    } else {
        assert(fields.take(i + 1) =~= fields);
    }
}

} // verus!
