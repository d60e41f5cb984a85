//! Error details on the wire: a server writes them as a `google.rpc.Status` in
//! protobuf, and the client reads each of them again.

use vstd::prelude::*;
use crate::encoding;
use crate::error;
use crate::grpc_status;

verus! {

/// A number in base 128, least significant group first, all bytes but the last
/// marked with the high bit.
pub open spec fn varint(n: nat) -> Seq<u8>
    decreases n,
{
    if n < 128 {
        seq![n as u8]
    } else {
        seq![(n % 128 + 128) as u8] + varint(n / 128)
    }
}

/// A field with a length: its number, the kind two, the length and the bytes.
pub open spec fn bytes_field(number: nat, payload: Seq<u8>) -> Seq<u8> {
    varint(number * 8 + 2) + varint(payload.len()) + payload
}

/// A field with a number for its value: its number, the kind zero and the value.
pub open spec fn number_field(number: nat, value: nat) -> Seq<u8> {
    varint(number * 8) + varint(value)
}

/// A detail as a server has it: its type, under the prefix of a type URL, and its
/// payload.
pub struct SentDetail {
    pub prefix: Seq<char>,
    pub name: Seq<char>,
    pub payload: Seq<u8>,
}

impl SentDetail {
    /// The URL of the type.
    pub open spec fn url(self) -> Seq<char> {
        self.prefix + seq!['/'] + self.name
    }

    /// The detail as a `google.protobuf.Any`: the URL in field one, the payload in
    /// field two. An empty payload may be left out.
    pub open spec fn any(self, sparse: bool) -> Seq<u8> {
        bytes_field(1, vstd::utf8::encode_utf8(self.url())) + if sparse && self.payload.len() == 0 {
            Seq::empty()
        } else {
            bytes_field(2, self.payload)
        }
    }

    /// The detail as the client is to see it.
    pub open spec fn seen(self) -> error::DetailView {
        error::DetailView {
            type_url: self.name,
            value: Some(encoding::standard_base64(self.payload)),
            debug: None,
        }
    }
}

/// Some details from one of them on, each in field three.
pub open spec fn details_from(details: Seq<SentDetail>, sparse: bool, i: int) -> Seq<u8>
    decreases details.len() - i,
{
    if 0 <= i < details.len() {
        bytes_field(3, details[i].any(sparse)) + details_from(details, sparse, i + 1)
    } else {
        Seq::empty()
    }
}

/// A `google.rpc.Status`: the code in field one, the message in field two and each
/// detail in field three. A code of zero and an empty message may be left out.
pub open spec fn status_bytes(
    code: nat,
    message: Seq<char>,
    details: Seq<SentDetail>,
    sparse: bool,
) -> Seq<u8> {
    (if sparse && code == 0 {
        Seq::empty()
    } else {
        number_field(1, code)
    }) + (if sparse && message.len() == 0 {
        Seq::empty()
    } else {
        bytes_field(2, vstd::utf8::encode_utf8(message))
    }) + details_from(details, sparse, 0)
}

/// Whether some bytes stand at a position of others.
spec fn stands_at(b: Seq<u8>, pos: int, part: Seq<u8>) -> bool {
    0 <= pos && pos + part.len() <= b.len() && b.subrange(pos, pos + part.len()) == part
}

/// The parts of what stands at a position stand one after the other.
proof fn parts_stand(b: Seq<u8>, pos: int, first: Seq<u8>, second: Seq<u8>)
    requires
        stands_at(b, pos, first + second),
    ensures
        stands_at(b, pos, first),
        stands_at(b, pos + first.len(), second),
{
    let both = b.subrange(pos, pos + (first + second).len());
    assert(b.subrange(pos, pos + first.len()) =~= first) by {
        assert forall|i: int| 0 <= i < first.len() implies b.subrange(pos, pos + first.len())[i]
            == first[i] by {
            assert(both[i] == (first + second)[i]);
        }
    }
    let from = pos + first.len();
    assert(b.subrange(from, from + second.len()) =~= second) by {
        assert forall|i: int| 0 <= i < second.len() implies b.subrange(from, from + second.len())[i]
            == second[i] by {
            assert(both[first.len() + i] == (first + second)[first.len() + i]);
        }
    }
}

/// A number of 64 bits takes at most ten bytes.
proof fn varint_length(n: nat, most: nat)
    requires
        most >= 1,
        n < vstd::arithmetic::power::pow(128, most),
    ensures
        1 <= varint(n).len() <= most,
    decreases most,
{
    vstd::arithmetic::power::lemma_pow1(128);
    if n >= 128 {
        assert(most > 1);
        let p = vstd::arithmetic::power::pow(128, (most - 1) as nat);
        assert(vstd::arithmetic::power::pow(128, most) == 128 * p) by {
            reveal(vstd::arithmetic::power::pow);
        }
        assert(n / 128 < p);
        varint_length(n / 128, (most - 1) as nat);
    }
}

/// A number of 64 bits is written with at most ten bytes.
proof fn varint_fits(n: nat)
    requires
        n <= u64::MAX,
    ensures
        1 <= varint(n).len() <= 10,
{
    assert(vstd::arithmetic::power::pow(128, 10) == 0x40_0000_0000_0000_0000) by {
        reveal_with_fuel(vstd::arithmetic::power::pow, 11);
    }
    varint_length(n, 10);
}

/// Reading a number gives back what was written.
proof fn varint_is_read(b: Seq<u8>, pos: int, n: nat, shift: nat)
    requires
        stands_at(b, pos, varint(n)),
        varint(n).len() + shift <= 10,
    ensures
        grpc_status::varint_at(b, pos, shift) == Some((n, pos + varint(n).len())),
    decreases n,
{
    let v = varint(n);
    assert(b.subrange(pos, pos + v.len())[0] == v[0]);
    if n >= 128 {
        parts_stand(b, pos, seq![(n % 128 + 128) as u8], varint(n / 128));
        varint_is_read(b, pos + 1, n / 128, shift + 1);
        assert(n % 128 + (n / 128) * 128 == n);
    }
}

/// Reading a field with a length gives back what was written.
proof fn bytes_field_is_read(b: Seq<u8>, pos: int, number: nat, payload: Seq<u8>)
    requires
        1 <= number <= 1000,
        payload.len() <= u64::MAX,
        stands_at(b, pos, bytes_field(number, payload)),
    ensures
        grpc_status::field_at(b, pos) == Some(
            ((number, Some(payload)), pos + bytes_field(number, payload).len()),
        ),
{
    let key = varint(number * 8 + 2);
    let length = varint(payload.len());
    varint_fits(number * 8 + 2);
    varint_fits(payload.len());
    parts_stand(b, pos, key + length, payload);
    parts_stand(b, pos, key, length);
    varint_is_read(b, pos, number * 8 + 2, 0);
    varint_is_read(b, pos + key.len(), payload.len(), 0);
    assert((number * 8 + 2) / 8 == number);
    assert((number * 8 + 2) % 8 == 2);
}

/// Reading a field with a number for its value passes over the value.
proof fn number_field_is_read(b: Seq<u8>, pos: int, number: nat, value: nat)
    requires
        1 <= number <= 1000,
        value <= u64::MAX,
        stands_at(b, pos, number_field(number, value)),
    ensures
        grpc_status::field_at(b, pos) == Some(
            ((number, None::<Seq<u8>>), pos + number_field(number, value).len()),
        ),
{
    varint_fits(number * 8);
    varint_fits(value);
    parts_stand(b, pos, varint(number * 8), varint(value));
    varint_is_read(b, pos, number * 8, 0);
    varint_is_read(b, pos + varint(number * 8).len(), value, 0);
    assert((number * 8) / 8 == number);
    assert((number * 8) % 8 == 0);
}

/// What follows the last slash of a type URL is the name of the type, if that has
/// no slash; a name alone is itself.
pub proof fn type_name_follows_the_last_slash(prefix: Seq<char>, name: Seq<char>)
    requires
        !name.contains('/'),
    ensures
        grpc_status::after_last_slash(prefix + seq!['/'] + name) == name,
        grpc_status::after_last_slash(name) == name,
    decreases name.len(),
{
    let url = prefix + seq!['/'] + name;
    if name.len() == 0 {
        assert(url.last() == '/');
        assert(name =~= Seq::empty());
    } else {
        let shorter = name.drop_last();
        assert(name.contains(name.last()));
        assert forall|x: char| shorter.contains(x) implies name.contains(x) by {
            let i = choose|i: int| 0 <= i < shorter.len() && shorter[i] == x;
            assert(name[i] == x);
        }
        type_name_follows_the_last_slash(prefix, shorter);
        assert(url.drop_last() =~= prefix + seq!['/'] + shorter);
        assert(shorter.push(name.last()) =~= name);
    }
}

/// One detail is read as it was written.
proof fn any_is_read(d: SentDetail, sparse: bool)
    requires
        d.any(sparse).len() <= u64::MAX,
        !d.name.contains('/'),
    ensures
        grpc_status::detail_of(d.any(sparse)) == Some(d.seen()),
{
    let b = d.any(sparse);
    let url = vstd::utf8::encode_utf8(d.url());
    let first = bytes_field(1, url);
    let second = bytes_field(2, d.payload);
    let f1: grpc_status::WireField = (1, Some(url));
    let f2: grpc_status::WireField = (2, Some(d.payload));
    vstd::utf8::encode_utf8_valid_utf8(d.url());
    vstd::utf8::encode_utf8_decode_utf8(d.url());
    type_name_follows_the_last_slash(d.prefix, d.name);
    assert(b.subrange(0, b.len() as int) =~= b);
    varint_fits(10);
    varint_fits(18);
    if sparse && d.payload.len() == 0 {
        assert(b =~= first);
        bytes_field_is_read(b, 0, 1, url);
        reveal_with_fuel(grpc_status::fields_from, 2);
        let fields = seq![f1];
        assert(grpc_status::fields_from(b, 0) == Some(fields)) by {
            assert(seq![f1] + Seq::<grpc_status::WireField>::empty() =~= fields);
        }
        assert(fields.drop_last() =~= Seq::empty());
        reveal_with_fuel(grpc_status::last_bytes, 3);
        assert(d.payload =~= Seq::empty());
    } else {
        parts_stand(b, 0, first, second);
        bytes_field_is_read(b, 0, 1, url);
        bytes_field_is_read(b, first.len() as int, 2, d.payload);
        reveal_with_fuel(grpc_status::fields_from, 3);
        let fields = seq![f1, f2];
        assert(grpc_status::fields_from(b, 0) == Some(fields)) by {
            assert(seq![f1] + (seq![f2] + Seq::<grpc_status::WireField>::empty()) =~= fields);
        }
        assert(fields.drop_last() =~= seq![f1]);
        assert(fields.drop_last().drop_last() =~= Seq::empty());
        reveal_with_fuel(grpc_status::last_bytes, 3);
    }
}

/// The fields of some details from one of them on.
spec fn wire_details(details: Seq<SentDetail>, sparse: bool, i: int) -> Seq<grpc_status::WireField> {
    details.skip(i).map_values(|d: SentDetail| (3nat, Some(d.any(sparse))))
}

/// The details are read as one field each, in order.
proof fn details_are_fields(b: Seq<u8>, pos: int, details: Seq<SentDetail>, sparse: bool, i: int)
    requires
        0 <= i <= details.len(),
        b.len() <= u64::MAX,
        stands_at(b, pos, details_from(details, sparse, i)),
        pos + details_from(details, sparse, i).len() == b.len(),
    ensures
        grpc_status::fields_from(b, pos) == Some(wire_details(details, sparse, i)),
    decreases details.len() - i,
{
    let fields = wire_details(details, sparse, i);
    if i == details.len() {
        assert(fields =~= Seq::empty());
    } else {
        let a = details[i].any(sparse);
        let first = bytes_field(3, a);
        parts_stand(b, pos, first, details_from(details, sparse, i + 1));
        varint_fits(26);
        bytes_field_is_read(b, pos, 3, a);
        details_are_fields(b, pos + first.len(), details, sparse, i + 1);
        let f: grpc_status::WireField = (3, Some(a));
        assert(fields =~= seq![f] + wire_details(details, sparse, i + 1));
    }
}

/// The first details among the fields of a status.
proof fn details_are_found(
    head: Seq<grpc_status::WireField>,
    details: Seq<SentDetail>,
    sparse: bool,
)
    requires
        forall|i: int|
            0 <= i < head.len() ==> !((#[trigger] head[i]).0 == 3 && head[i].1 is Some),
        forall|i: int|
            0 <= i < details.len() ==> (#[trigger] details[i]).any(sparse).len() <= u64::MAX
                && !details[i].name.contains('/'),
    ensures
        grpc_status::details_among(head + wire_details(details, sparse, 0)) == Some(
            details.map_values(|d: SentDetail| d.seen()),
        ),
    decreases details.len(), head.len(),
{
    let fields = head + wire_details(details, sparse, 0);
    let seen = details.map_values(|d: SentDetail| d.seen());
    if details.len() > 0 {
        let shorter = details.drop_last();
        let last = details[details.len() - 1];
        assert forall|i: int| 0 <= i < shorter.len() implies (#[trigger] shorter[i]).any(
            sparse,
        ).len() <= u64::MAX && !shorter[i].name.contains('/') by {
            assert(details[i].any(sparse).len() <= u64::MAX);
        }
        details_are_found(head, shorter, sparse);
        assert(fields.drop_last() =~= head + wire_details(shorter, sparse, 0));
        assert(fields.last() == (3nat, Some(last.any(sparse))));
        any_is_read(last, sparse);
        assert(seen =~= shorter.map_values(|d: SentDetail| d.seen()).push(last.seen()));
    } else if head.len() > 0 {
        let fewer = head.drop_last();
        assert forall|i: int| 0 <= i < fewer.len() implies !((#[trigger] fewer[i]).0 == 3
            && fewer[i].1 is Some) by {
            assert(!(head[i].0 == 3 && head[i].1 is Some));
        }
        details_are_found(fewer, details, sparse);
        assert(fields.drop_last() =~= fewer + wire_details(details, sparse, 0));
        assert(fields.last() == head[head.len() - 1]);
    } else {
        assert(fields =~= Seq::empty());
        assert(seen =~= Seq::empty());
    }
}

/// Every detail of a status arrives, in the order in which it was sent: its type
/// by name and its payload in base64. Whatever the code and the message are,
/// however long any part is, and whether or not the server leaves out fields
/// without a value.
pub proof fn details_arrive(
    code: nat,
    message: Seq<char>,
    details: Seq<SentDetail>,
    sparse: bool,
)
    requires
        code <= u64::MAX,
        status_bytes(code, message, details, sparse).len() <= u64::MAX,
        forall|i: int| 0 <= i < details.len() ==> !(#[trigger] details[i]).name.contains('/'),
    ensures
        grpc_status::details_of(status_bytes(code, message, details, sparse)) == details.map_values(
            |d: SentDetail| d.seen(),
        ),
{
    let b = status_bytes(code, message, details, sparse);
    let text = vstd::utf8::encode_utf8(message);
    let f1: grpc_status::WireField = (1, None);
    let f2: grpc_status::WireField = (2, Some(text));
    let p1 = if sparse && code == 0 {
        Seq::empty()
    } else {
        number_field(1, code)
    };
    let p2 = if sparse && message.len() == 0 {
        Seq::empty()
    } else {
        bytes_field(2, text)
    };
    let p3 = details_from(details, sparse, 0);
    let h1 = if sparse && code == 0 {
        Seq::empty()
    } else {
        seq![f1]
    };
    let h2 = if sparse && message.len() == 0 {
        Seq::empty()
    } else {
        seq![f2]
    };
    let tail = wire_details(details, sparse, 0);
    assert(b.subrange(0, b.len() as int) =~= b);
    parts_stand(b, 0, p1 + p2, p3);
    parts_stand(b, 0, p1, p2);
    let at2 = p1.len() as int;
    let at3 = (p1 + p2).len() as int;
    details_are_fields(b, at3, details, sparse, 0);
    varint_fits(8);
    varint_fits(18);
    assert(grpc_status::fields_from(b, at2) == Some(h2 + tail)) by {
        if !(sparse && message.len() == 0) {
            bytes_field_is_read(b, at2, 2, text);
        } else {
            assert(h2 + tail =~= tail);
        }
    }
    assert(grpc_status::fields_from(b, 0) == Some(h1 + h2 + tail)) by {
        if !(sparse && code == 0) {
            number_field_is_read(b, 0, 1, code);
            assert(seq![f1] + (h2 + tail) =~= h1 + h2 + tail);
        } else {
            assert(h1 + h2 + tail =~= h2 + tail);
        }
    }
    parts_are_shorter(details, sparse, 0);
    details_are_found(h1 + h2, details, sparse);
}

/// Each detail is shorter than all of them together.
proof fn parts_are_shorter(details: Seq<SentDetail>, sparse: bool, i: int)
    requires
        0 <= i <= details.len(),
    ensures
        forall|k: int|
            i <= k < details.len() ==> (#[trigger] details[k]).any(sparse).len() <= details_from(
                details,
                sparse,
                i,
            ).len(),
    decreases details.len() - i,
{
    if i < details.len() {
        parts_are_shorter(details, sparse, i + 1);
    }
}

/// A field of eight bytes: its number, the kind one and the bytes.
pub open spec fn wide_field(number: nat, value: Seq<u8>) -> Seq<u8> {
    varint(number * 8 + 1) + value
}

/// A field of four bytes: its number, the kind five and the bytes.
pub open spec fn narrow_field(number: nat, value: Seq<u8>) -> Seq<u8> {
    varint(number * 8 + 5) + value
}

/// Reading a number does not depend on what comes before it.
proof fn varint_is_shifted(f: Seq<u8>, b: Seq<u8>, pos: int, shift: nat)
    requires
        pos >= 0,
    ensures
        grpc_status::varint_at(f + b, f.len() + pos, shift) == match grpc_status::varint_at(
            b,
            pos,
            shift,
        ) {
            Some((v, next)) => Some((v, f.len() + next)),
            None => None,
        },
    decreases 10 - shift,
{
    if shift < 10 && pos < b.len() {
        assert((f + b)[f.len() + pos] == b[pos]);
        if b[pos] >= 128 {
            varint_is_shifted(f, b, pos + 1, shift + 1);
        }
    }
}

/// Reading a field does not depend on what comes before it.
proof fn field_is_shifted(f: Seq<u8>, b: Seq<u8>, pos: int)
    requires
        pos >= 0,
    ensures
        grpc_status::field_at(f + b, f.len() + pos) == match grpc_status::field_at(b, pos) {
            Some((field, next)) => Some((field, f.len() + next)),
            None => None,
        },
{
    varint_is_shifted(f, b, pos, 0);
    varint_ends_inside(b, pos, 0);
    if let Some((_, body)) = grpc_status::varint_at(b, pos, 0) {
        varint_is_shifted(f, b, body, 0);
        varint_ends_inside(b, body, 0);
        if let Some((length, start)) = grpc_status::varint_at(b, body, 0) {
            if start + length <= b.len() {
                assert((f + b).subrange(f.len() + start, f.len() + start + length) =~= b.subrange(
                    start,
                    start + length,
                ));
            }
        }
    }
}

/// A number ends after where it begins, within the bytes.
proof fn varint_ends_inside(b: Seq<u8>, pos: int, shift: nat)
    requires
        pos >= 0,
    ensures
        grpc_status::varint_at(b, pos, shift) matches Some((_, next)) ==> pos < next <= b.len(),
    decreases 10 - shift,
{
    if shift < 10 && pos < b.len() && b[pos] >= 128 {
        varint_ends_inside(b, pos + 1, shift + 1);
    }
}

/// Reading fields does not depend on what comes before them.
proof fn fields_are_shifted(f: Seq<u8>, b: Seq<u8>, pos: int)
    requires
        pos >= 0,
    ensures
        grpc_status::fields_from(f + b, f.len() + pos) == grpc_status::fields_from(b, pos),
    decreases b.len() - pos,
{
    if pos < b.len() {
        field_is_shifted(f, b, pos);
        if let Some((_, next)) = grpc_status::field_at(b, pos) {
            if pos < next <= b.len() {
                fields_are_shifted(f, b, next);
            }
        }
    }
}

/// One more field in front that holds no detail changes no detail.
proof fn field_in_front_changes_no_detail(
    field: grpc_status::WireField,
    fields: Seq<grpc_status::WireField>,
)
    requires
        !(field.0 == 3 && field.1 is Some),
    ensures
        grpc_status::details_among(seq![field] + fields) == grpc_status::details_among(fields),
    decreases fields.len(),
{
    let all = seq![field] + fields;
    if fields.len() > 0 {
        field_in_front_changes_no_detail(field, fields.drop_last());
        assert(all.drop_last() =~= seq![field] + fields.drop_last());
    } else {
        assert(all.drop_last() =~= Seq::empty());
        assert(fields =~= Seq::empty());
        reveal_with_fuel(grpc_status::details_among, 2);
    }
}

/// Fields that the client does not know are passed over, whatever their kind: with
/// a number, with a length, of eight bytes or of four.
pub proof fn unknown_fields_are_passed_over(
    b: Seq<u8>,
    f: Seq<u8>,
    number: nat,
    value: nat,
    payload: Seq<u8>,
)
    requires
        1 <= number <= 1000,
        number != 3,
        value <= u64::MAX,
        payload.len() <= u64::MAX,
        f == number_field(number, value) || f == bytes_field(number, payload) || (payload.len() == 8
            && f == wide_field(number, payload)) || (payload.len() == 4 && f == narrow_field(
            number,
            payload,
        )),
    ensures
        grpc_status::details_of(f + b) == grpc_status::details_of(b),
{
    let all = f + b;
    assert(all.subrange(0, f.len() as int) =~= f);
    varint_fits(number * 8);
    varint_fits(number * 8 + 1);
    varint_fits(number * 8 + 2);
    varint_fits(number * 8 + 5);
    if f == number_field(number, value) {
        number_field_is_read(all, 0, number, value);
    } else if f == bytes_field(number, payload) {
        bytes_field_is_read(all, 0, number, payload);
    } else {
        let kind: nat = if payload.len() == 8 {
            1
        } else {
            5
        };
        parts_stand(all, 0, varint(number * 8 + kind), payload);
        varint_is_read(all, 0, number * 8 + kind, 0);
        assert((number * 8 + kind) / 8 == number);
        assert((number * 8 + kind) % 8 == kind);
    }
    fields_are_shifted(f, b, 0);
    assert(f.len() + 0 == f.len());
    let field = grpc_status::field_at(all, 0)->Some_0.0;
    if let Some(fields) = grpc_status::fields_from(b, 0) {
        field_in_front_changes_no_detail(field, fields);
    }
}

/// A status that begins with a field numbered zero, or of a kind that does not
/// exist, or that breaks off within its first number or within the bytes of a
/// field, has no details.
pub proof fn malformed_status_has_no_details(b: Seq<u8>, number: nat, length: nat)
    requires
        b.len() > 0,
        1 <= number <= 1000,
        length <= u64::MAX,
    ensures
        b[0] < 8 ==> grpc_status::details_of(b) == Seq::<error::DetailView>::empty(),
        b[0] < 128 && b[0] % 8 >= 6 ==> grpc_status::details_of(b) == Seq::<
            error::DetailView,
        >::empty(),
        b[0] >= 128 && b.len() == 1 ==> grpc_status::details_of(b) == Seq::<
            error::DetailView,
        >::empty(),
        b.len() <= length ==> grpc_status::details_of(
            varint(number * 8 + 2) + varint(length) + b.drop_last(),
        ) == Seq::<error::DetailView>::empty(),
{
    if b.len() <= length {
        let rest = b.drop_last();
        let all = varint(number * 8 + 2) + varint(length) + rest;
        varint_fits(number * 8 + 2);
        varint_fits(length);
        assert(all =~= varint(number * 8 + 2) + (varint(length) + rest));
        assert(all.subrange(0, all.len() as int) =~= all);
        parts_stand(all, 0, varint(number * 8 + 2), varint(length) + rest);
        let at = varint(number * 8 + 2).len();
        varint_is_read(all, 0, number * 8 + 2, 0);
        assert(all.subrange(at as int, (at + varint(length).len()) as int) =~= varint(length));
        varint_is_read(all, at as int, length, 0);
        assert((number * 8 + 2) / 8 == number);
        assert((number * 8 + 2) % 8 == 2);
    }
    reveal_with_fuel(grpc_status::varint_at, 2);
}

} // verus!
