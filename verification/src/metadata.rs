//! Operations on header maps: looking up text, merging, and telling headers
//! and trailers apart.

use vstd::prelude::*;
use crate::headers::HeaderField;
use crate::headers;
use crate::text;

verus! {

/// The header names that the protocols use.
pub open spec fn is_protocol_name(s: Seq<char>) -> bool {
    ||| s == "grpc-status"@
    ||| s == "grpc-message"@
    ||| s == "grpc-status-details-bin"@
    ||| s == "grpc-encoding"@
    ||| s == "grpc-accept-encoding"@
    ||| s == "grpc-timeout"@
    ||| s == "te"@
    ||| s == "content-type"@
    ||| s == "content-encoding"@
    ||| s == "accept-encoding"@
    ||| s == "connect-protocol-version"@
    ||| s == "connect-content-encoding"@
    ||| s == "connect-accept-encoding"@
    ||| s == "connect-timeout-ms"@
}

/// A text of lower-case token characters is a canonical header name.
proof fn lower_case_is_canonical(s: Seq<char>)
    requires
        1 <= s.len() <= 65535,
        forall|i: int|
            0 <= i < s.len() ==> headers::is_token_char(#[trigger] s[i]) && headers::lower(s[i])
                == s[i],
    ensures
        headers::is_canonical_name(s),
{
    assert(s.map_values(|c: char| headers::lower(c)) =~= s);
}

/// The header names that the protocols use are canonical.
pub proof fn protocol_names_are_canonical(s: Seq<char>)
    requires
        is_protocol_name(s),
    ensures
        headers::is_canonical_name(s),
        headers::is_http2_name(s),
{
    reveal_strlit("grpc-status");
    reveal_strlit("grpc-message");
    reveal_strlit("grpc-status-details-bin");
    reveal_strlit("grpc-encoding");
    reveal_strlit("grpc-accept-encoding");
    reveal_strlit("grpc-timeout");
    reveal_strlit("te");
    reveal_strlit("content-type");
    reveal_strlit("content-encoding");
    reveal_strlit("accept-encoding");
    reveal_strlit("connect-protocol-version");
    reveal_strlit("connect-content-encoding");
    reveal_strlit("connect-accept-encoding");
    reveal_strlit("connect-timeout-ms");
    lower_case_is_canonical(s);
    headers::canonical_names_are_http2_names(s);
}

/// The names among some fields.
pub open spec fn names_of(fields: Seq<(Seq<char>, (Seq<u8>, bool))>) -> Set<Seq<char>> {
    Set::new(|n: Seq<char>| exists|i: int| 0 <= i < fields.len() && (#[trigger] fields[i]).0 == n)
}

/// One more field, one more name.
proof fn names_of_push(fields: Seq<(Seq<char>, (Seq<u8>, bool))>)
    requires
        fields.len() > 0,
    ensures
        names_of(fields) == names_of(fields.drop_last()).insert(fields.last().0),
{
    let shorter = fields.drop_last();
    assert forall|n: Seq<char>|
        names_of(fields).contains(n) == names_of(shorter).insert(fields.last().0).contains(n) by {
        if names_of(fields).contains(n) {
            let i = choose|i: int| 0 <= i < fields.len() && (#[trigger] fields[i]).0 == n;
            if i < shorter.len() {
                assert(shorter[i].0 == n);
            }
        }
        if names_of(shorter).contains(n) {
            let i = choose|i: int| 0 <= i < shorter.len() && (#[trigger] shorter[i]).0 == n;
            assert(fields[i].0 == n);
        }
        if n == fields.last().0 {
            assert(fields[fields.len() - 1].0 == n);
        }
    }
    assert(names_of(fields) =~= names_of(shorter).insert(fields.last().0));
}

/// Adding fields to a map adds their names, and at most as many names as there
/// are fields.
pub proof fn with_fields_names(
    h: headers::Headers,
    fields: Seq<(Seq<char>, (Seq<u8>, bool))>,
)
    ensures
        headers::with_fields(h, fields).dom() == h.dom().union(names_of(fields)),
        h.dom().finite() ==> headers::with_fields(h, fields).dom().finite(),
        h.dom().finite() ==> headers::with_fields(h, fields).dom().len() <= h.dom().len()
            + fields.len(),
    decreases fields.len(),
{
    let r = headers::with_fields(h, fields);
    if fields.len() == 0 {
        assert(names_of(fields) =~= Set::empty());
        assert(r.dom() =~= h.dom().union(names_of(fields)));
    } else {
        with_fields_names(h, fields.drop_last());
        names_of_push(fields);
        assert(r.dom() =~= h.dom().union(names_of(fields)));
    }
}

/// The first fields give a part of the names that all of them give.
pub proof fn with_fewer_fields_names(
    h: headers::Headers,
    fields: Seq<(Seq<char>, (Seq<u8>, bool))>,
    i: int,
)
    requires
        0 <= i <= fields.len(),
        headers::with_fields(h, fields).dom().finite(),
    ensures
        headers::with_fields(h, fields.take(i)).dom().finite(),
        headers::with_fields(h, fields.take(i)).dom().len() <= headers::with_fields(
            h,
            fields,
        ).dom().len(),
{
    with_fields_names(h, fields);
    with_fields_names(h, fields.take(i));
    let part = headers::with_fields(h, fields.take(i)).dom();
    let all = headers::with_fields(h, fields).dom();
    assert forall|n: Seq<char>| part.contains(n) implies all.contains(n) by {
        if names_of(fields.take(i)).contains(n) {
            let k = choose|k: int|
                0 <= k < fields.take(i).len() && (#[trigger] fields.take(i)[k]).0 == n;
            assert(fields[k].0 == n);
        }
    }
    vstd::set_lib::lemma_len_subset(part, all);
}

/// Views of the first fields.
proof fn field_views_step(fields: Seq<HeaderField>, i: int)
    requires
        0 <= i < fields.len(),
    ensures
        headers::field_views(fields).take(i + 1).drop_last() == headers::field_views(fields).take(i),
        headers::field_views(fields).take(i + 1).last() == fields[i]@,
        headers::field_views(fields).len() == fields.len(),
{
    assert(headers::field_views(fields).take(i + 1).drop_last() =~= headers::field_views(
        fields,
    ).take(i));
}

/// Adds fields to a map, one after the other.
pub fn append_all(m: &mut http::HeaderMap, fields: &Vec<HeaderField>)
    requires
        forall|i: int| 0 <= i < fields@.len() ==> (#[trigger] fields@[i]).wf(),
        headers::has_room(
            headers::with_fields(
                headers::header_contents(*old(m)),
                headers::field_views(fields@),
            ),
        ),
    ensures
        headers::header_contents(*final(m)) == headers::with_fields(
            headers::header_contents(*old(m)),
            headers::field_views(fields@),
        ),
{
    let ghost start = headers::header_contents(*m);
    let ghost views = headers::field_views(fields@);
    let mut i: usize = 0;
    assert(views.take(0) =~= Seq::empty());
    while i < fields.len()
        invariant
            i <= fields@.len(),
            views == headers::field_views(fields@),
            forall|k: int| 0 <= k < fields@.len() ==> (#[trigger] fields@[k]).wf(),
            headers::has_room(headers::with_fields(start, views)),
            headers::header_contents(*m) == headers::with_fields(start, views.take(i as int)),
        decreases fields@.len() - i,
    {
        proof {
            with_fewer_fields_names(start, views, i as int);
            field_views_step(fields@, i as int);
        }
        headers::append_field(m, &fields[i]);
        i += 1;
    }
    assert(views.take(i as int) =~= views);
}

/// The fields of a header map, which are finitely many: added to an empty map in
/// this order, they give the map again.
pub fn fields_of(m: &http::HeaderMap) -> (r: Vec<HeaderField>)
    ensures
        headers::with_fields(headers::no_headers(), headers::field_views(r@))
            == headers::header_contents(*m),
        headers::field_views(r@) == headers::header_entries(*m),
        forall|i: int| 0 <= i < r@.len() ==> headers::is_lower(#[trigger] r@[i].name@),
        headers::header_contents(*m).dom() == names_of(headers::field_views(r@)),
        headers::header_contents(*m).dom().finite(),
{
    let r = headers::list_fields(m);
    proof {
        with_fields_names(headers::no_headers(), headers::field_views(r@));
        assert(headers::no_headers().dom().union(names_of(headers::field_views(r@))) =~= names_of(
            headers::field_views(r@),
        ));
    }
    r
}

/// Adds all headers that another map hands out, of which there are `n`.
fn append_entries(m: &mut http::HeaderMap, from: &http::HeaderMap, n: usize)
    requires
        n == headers::header_entries(*from).len(),
        headers::has_room(
            headers::with_fields(
                headers::header_contents(*old(m)),
                headers::header_entries(*from),
            ),
        ),
    ensures
        headers::header_contents(*final(m)) == headers::with_fields(
            headers::header_contents(*old(m)),
            headers::header_entries(*from),
        ),
{
    let ghost start = headers::header_contents(*m);
    let ghost entries = headers::header_entries(*from);
    let mut i: usize = 0;
    assert(entries.take(0) =~= Seq::empty());
    while i < n
        invariant
            i <= n,
            n == entries.len(),
            entries == headers::header_entries(*from),
            headers::has_room(headers::with_fields(start, entries)),
            headers::header_contents(*m) == headers::with_fields(start, entries.take(i as int)),
        decreases n - i,
    {
        proof {
            with_fewer_fields_names(start, entries, i as int);
            assert(entries.take(i + 1).drop_last() =~= entries.take(i as int));
        }
        headers::append_entry(m, from, i);
        i += 1;
    }
    assert(entries.take(i as int) =~= entries);
}

/// The headers of `config` with those of `options` in their place: for a name
/// in `options`, its values there and no others.
pub open spec fn merged(config: headers::Headers, options: headers::Headers) -> headers::Headers {
    config.union_prefer_right(options)
}

/// Adding fields whose names the map does not hold is joining two maps.
proof fn with_fields_is_union(
    base: headers::Headers,
    fields: Seq<(Seq<char>, (Seq<u8>, bool))>,
)
    requires
        forall|n: Seq<char>| #[trigger] names_of(fields).contains(n) ==> !base.dom().contains(n),
    ensures
        headers::with_fields(base, fields) == base.union_prefer_right(
            headers::with_fields(headers::no_headers(), fields),
        ),
    decreases fields.len(),
{
    let whole = headers::with_fields(headers::no_headers(), fields);
    if fields.len() > 0 {
        names_of_push(fields);
        assert forall|n: Seq<char>| #[trigger] names_of(fields.drop_last()).contains(n) implies
            !base.dom().contains(n) by {
            assert(names_of(fields).contains(n));
        }
        with_fields_is_union(base, fields.drop_last());
        let last = fields.last().0;
        assert(names_of(fields).contains(last));
        let part = headers::with_fields(headers::no_headers(), fields.drop_last());
        assert(headers::values_of(base.union_prefer_right(part), last) =~= headers::values_of(
            part,
            last,
        ));
    }
    assert(headers::with_fields(base, fields) =~= base.union_prefer_right(whole));
}

/// Merges headers: those of `options` replace those of `config_defaults` with
/// the same name, and all other defaults stay.
pub fn merge_headers(config_defaults: &http::HeaderMap, options: http::HeaderMap) -> (r:
    http::HeaderMap)
    requires
        ({
            let config = headers::header_contents(*config_defaults);
            let opts = headers::header_contents(options);
            config == headers::no_headers() || opts == headers::no_headers() || headers::has_room(
                merged(config, opts),
            )
        }),
    ensures
        headers::header_contents(r) == merged(
            headers::header_contents(*config_defaults),
            headers::header_contents(options),
        ),
{
    let ghost config = headers::header_contents(*config_defaults);
    let ghost opts = headers::header_contents(options);
    if headers::is_empty(config_defaults) {
        assert(merged(config, opts) =~= opts);
        return options;
    }
    if headers::is_empty(&options) {
        assert(merged(config, opts) =~= config);
        return headers::copy_headers(config_defaults);
    }
    let fields = fields_of(&options);
    let ghost views = headers::field_views(fields@);
    let mut result = headers::copy_headers(config_defaults);
    let mut i: usize = 0;
    assert(config.remove_keys(names_of(views.take(0))) =~= config);
    while i < fields.len()
        invariant
            i <= fields@.len(),
            views == headers::field_views(fields@),
            views == headers::header_entries(options),
            headers::header_contents(result) == config.remove_keys(names_of(views.take(i as int))),
        decreases fields@.len() - i,
    {
        headers::remove_entry(&mut result, &options, i);
        proof {
            field_views_step(fields@, i as int);
            names_of_push(views.take(i + 1));
            assert(config.remove_keys(names_of(views.take(i as int))).remove(fields@[i as int].name@)
                =~= config.remove_keys(names_of(views.take(i + 1))));
        }
        i += 1;
    }
    proof {
        assert(views.take(i as int) =~= views);
        let base = config.remove_keys(names_of(views));
        with_fields_is_union(base, views);
        assert(base.union_prefer_right(opts) =~= merged(config, opts));
    }
    append_entries(&mut result, &options, fields.len());
    result
}

/// Bytes as text, if they are visible ASCII characters, spaces and tabs only.
pub open spec fn visible_text(b: Seq<u8>) -> Option<Seq<char>> {
    if forall|i: int| 0 <= i < b.len() ==> (32 <= #[trigger] b[i] <= 126 || b[i] == 9) {
        Some(b.map_values(|x: u8| x as char))
    } else {
        None
    }
}

/// Bytes as text, if they are visible ASCII characters, spaces and tabs only.
pub fn visible_string(b: &[u8]) -> (r: Option<String>)
    ensures
        match r {
            Some(s) => visible_text(b@) == Some(s@),
            None => visible_text(b@) is None,
        },
{
    let mut out = String::new();
    let mut i: usize = 0;
    while i < b.len()
        invariant
            i <= b.len(),
            out@ =~= b@.take(i as int).map_values(|x: u8| x as char),
            forall|k: int| 0 <= k < i ==> (32 <= #[trigger] b@[k] <= 126 || b@[k] == 9),
        decreases b.len() - i,
    {
        if !((32 <= b[i] && b[i] <= 126) || b[i] == 9) {
            assert(!(32 <= b@[i as int] <= 126 || b@[i as int] == 9));
            return None;
        }
        out.push(b[i] as char);
        i += 1;
    }
    assert(b@.take(i as int) =~= b@);
    Some(out)
}

/// The text of a header: that of its first value, if it is visible text.
pub open spec fn header_text(h: headers::Headers, name: Seq<char>) -> Option<Seq<char>> {
    if h.dom().contains(name) {
        visible_text(h[name][0].0)
    } else {
        None
    }
}

/// The text of a header: that of its first value, if it is visible text.
pub fn header_string(m: &http::HeaderMap, name: &str) -> (r: Option<String>)
    requires
        headers::is_canonical_name(name@),
    ensures
        match r {
            Some(s) => header_text(headers::header_contents(*m), name@) == Some(s@),
            None => header_text(headers::header_contents(*m), name@) is None,
        },
{
    match headers::first_value(m, name) {
        Some(f) => visible_string(f.value.as_slice()),
        None => None,
    }
}

/// The prefix that marks trailers among the headers of a Connect response.
pub open spec fn trailer_prefix() -> Seq<char> {
    "trailer-"@
}

/// The headers of a Connect response that are no trailers.
pub open spec fn plain_part(h: headers::Headers) -> headers::Headers {
    Map::new(
        |n: Seq<char>| h.dom().contains(n) && !text::starts(n, trailer_prefix()),
        |n: Seq<char>| h[n],
    )
}

/// The trailers among the headers of a Connect response, without their prefix.
/// Where what follows the prefix is no header name, there is no trailer.
pub open spec fn trailer_part(h: headers::Headers) -> headers::Headers {
    Map::new(
        |n: Seq<char>| headers::is_canonical_name(n) && h.dom().contains(trailer_prefix() + n),
        |n: Seq<char>| h[trailer_prefix() + n],
    )
}

/// A text that begins with a prefix is the prefix and what follows it.
proof fn prefix_and_rest(s: Seq<char>, p: Seq<char>)
    ensures
        text::after_prefix(s, p) matches Some(t) ==> s == p + t,
        text::after_prefix(p + s, p) == Some(s),
        text::starts(p + s, p),
{
    if let Some(t) = text::after_prefix(s, p) {
        assert(s =~= p + t);
    }
    assert((p + s).take(p.len() as int) =~= p);
    assert((p + s).skip(p.len() as int) =~= s);
}

/// A name in lower case without its trailer prefix stands for itself or is no
/// header name.
proof fn stripped_name(n: Seq<char>, t: Seq<char>)
    requires
        headers::is_lower(n),
        n == trailer_prefix() + t,
    ensures
        headers::header_name_of(t) is Some ==> headers::header_name_of(t) == Some(t),
        headers::is_canonical_name(t) ==> headers::is_http2_name(t),
{
    let p = trailer_prefix();
    headers::canonical_names_are_http2_names(t);
    if headers::is_header_name(t) {
        assert forall|i: int| 0 <= i < t.len() implies headers::is_token_char(#[trigger] t[i])
            && headers::lower(t[i]) == t[i] by {
            assert(n[p.len() + i] == t[i]);
        }
        lower_case_is_canonical(t);
    }
}

/// Adding a field to some headers adds it to their trailers, if it is one.
proof fn parts_step(h: headers::Headers, name: Seq<char>, value: (Seq<u8>, bool))
    ensures
        ({
            let next = headers::with_value(h, name, value);
            match text::after_prefix(name, trailer_prefix()) {
                Some(t) => {
                    &&& headers::is_canonical_name(t) ==> trailer_part(next) == headers::with_value(
                        trailer_part(h),
                        t,
                        value,
                    )
                    &&& !headers::is_canonical_name(t) ==> trailer_part(next) == trailer_part(h)
                },
                None => trailer_part(next) == trailer_part(h),
            }
        }),
{
    let next = headers::with_value(h, name, value);
    let p = trailer_prefix();
    prefix_and_rest(name, p);
    assert forall|n: Seq<char>| p + n == name implies text::after_prefix(name, p) == Some(n) by {
        prefix_and_rest(n, p);
    }
    match text::after_prefix(name, p) {
        Some(t) => {
            assert forall|n: Seq<char>| n != t implies #[trigger] (p + n) != name by {
                prefix_and_rest(n, p);
            }
            if headers::is_canonical_name(t) {
                assert(headers::values_of(trailer_part(h), t) =~= headers::values_of(h, name));
                assert(trailer_part(next) =~= headers::with_value(trailer_part(h), t, value));
            } else {
                assert(trailer_part(next) =~= trailer_part(h));
            }
        },
        None => {
            assert(trailer_part(next) =~= trailer_part(h));
        },
    }
}

/// Some headers without those trailers among them that have been seen.
spec fn unseen(h: headers::Headers, seen: Set<Seq<char>>) -> headers::Headers {
    Map::new(
        |n: Seq<char>|
            h.dom().contains(n) && !(text::starts(n, trailer_prefix()) && seen.contains(n)),
        |n: Seq<char>| h[n],
    )
}

/// The first fields give a part of the trailers that all of them give.
proof fn fewer_trailers(fields: Seq<(Seq<char>, (Seq<u8>, bool))>, i: int)
    requires
        0 <= i <= fields.len(),
        headers::has_room(trailer_part(headers::with_fields(headers::no_headers(), fields))),
    ensures
        headers::has_room(
            trailer_part(headers::with_fields(headers::no_headers(), fields.take(i))),
        ),
{
    let all = headers::with_fields(headers::no_headers(), fields);
    let part = headers::with_fields(headers::no_headers(), fields.take(i));
    with_fields_names(headers::no_headers(), fields);
    with_fields_names(headers::no_headers(), fields.take(i));
    assert forall|n: Seq<char>| part.dom().contains(n) implies all.dom().contains(n) by {
        let k = choose|k: int|
            0 <= k < fields.take(i).len() && (#[trigger] fields.take(i)[k]).0 == n;
        assert(fields[k].0 == n);
    }
    vstd::set_lib::lemma_len_subset(trailer_part(part).dom(), trailer_part(all).dom());
}

/// Splits the headers of a Connect response into its headers and, without
/// their prefix, its trailers.
pub fn split_trailers(m: &http::HeaderMap) -> (r: (http::HeaderMap, http::HeaderMap))
    requires
        headers::has_room(trailer_part(headers::header_contents(*m))),
    ensures
        headers::header_contents(r.0) == plain_part(headers::header_contents(*m)),
        headers::header_contents(r.1) == trailer_part(headers::header_contents(*m)),
{
    let fields = fields_of(m);
    let ghost all = headers::header_contents(*m);
    let ghost views = headers::field_views(fields@);
    let mut plain = headers::copy_headers(m);
    let mut trailers = headers::new_headers();
    let mut i: usize = 0;
    proof {
        assert(views.take(0) =~= Seq::empty());
        assert(unseen(all, names_of(views.take(0))) =~= all);
        assert(trailer_part(headers::no_headers()) =~= headers::no_headers());
    }
    while i < fields.len()
        invariant
            i <= fields@.len(),
            views == headers::field_views(fields@),
            all == headers::with_fields(headers::no_headers(), views),
            views == headers::header_entries(*m),
            forall|k: int| 0 <= k < fields@.len() ==> headers::is_lower(#[trigger] fields@[k].name@),
            headers::has_room(trailer_part(all)),
            headers::header_contents(plain) == unseen(all, names_of(views.take(i as int))),
            headers::header_contents(trailers) == trailer_part(
                headers::with_fields(headers::no_headers(), views.take(i as int)),
            ),
        decreases fields@.len() - i,
    {
        let ghost h = headers::with_fields(headers::no_headers(), views.take(i as int));
        let ghost name = fields@[i as int].name@;
        let ghost seen = names_of(views.take(i as int));
        proof {
            fewer_trailers(views, i as int);
            field_views_step(fields@, i as int);
            names_of_push(views.take(i + 1));
            parts_step(h, name, fields@[i as int]@.1);
            prefix_and_rest(name, trailer_prefix());
        }
        match text::strip_prefix(fields[i].name.as_str(), "trailer-") {
            Some(rest) => {
                proof {
                    stripped_name(name, rest@);
                    assert(unseen(all, seen).remove(name) =~= unseen(all, seen.insert(name)));
                }
                headers::remove_entry(&mut plain, m, i);
                if let Some(trailer_name) = headers::parse_header_name(rest.as_str()) {
                    headers::append_entry_as(&mut trailers, trailer_name.as_str(), m, i);
                }
            },
            None => {
                assert(unseen(all, seen) =~= unseen(all, seen.insert(name)));
            },
        }
        i += 1;
    }
    proof {
        assert(views.take(i as int) =~= views);
        assert(unseen(all, names_of(views)) =~= plain_part(all));
    }
    (plain, trailers)
}

/// The trailers among some names, without their prefix.
spec fn stripped_names(names: Set<Seq<char>>) -> Set<Seq<char>> {
    Set::new(
        |n: Seq<char>| headers::is_canonical_name(n) && names.contains(trailer_prefix() + n),
    )
}

/// Whether a name is that of a trailer.
spec fn is_trailer_name(n: Seq<char>) -> bool {
    text::after_prefix(n, trailer_prefix()) matches Some(t) && headers::is_canonical_name(t)
}

/// There are no more trailers than names, and as many when all names are those
/// of trailers.
proof fn count_stripped_names(names: Set<Seq<char>>)
    requires
        names.finite(),
    ensures
        stripped_names(names).finite(),
        stripped_names(names).len() <= names.len(),
        (forall|n: Seq<char>| #[trigger] names.contains(n) ==> is_trailer_name(n))
            ==> stripped_names(names).len() == names.len(),
    decreases names.len(),
{
    if names.len() == 0 {
        assert(stripped_names(names) =~= Set::empty());
    } else {
        let a = names.choose();
        assert(names.contains(a));
        let fewer = names.remove(a);
        count_stripped_names(fewer);
        prefix_and_rest(a, trailer_prefix());
        if is_trailer_name(a) {
            let rest = text::after_prefix(a, trailer_prefix())->Some_0;
            assert forall|n: Seq<char>|
                stripped_names(names).contains(n) == stripped_names(fewer).insert(rest).contains(
                    n,
                ) by {
                prefix_and_rest(n, trailer_prefix());
            }
            assert(stripped_names(names) =~= stripped_names(fewer).insert(rest));
            assert(!stripped_names(fewer).contains(rest));
            if forall|n: Seq<char>| #[trigger] names.contains(n) ==> is_trailer_name(n) {
                assert forall|n: Seq<char>| #[trigger] fewer.contains(n) implies is_trailer_name(
                    n,
                ) by {
                    assert(names.contains(n));
                }
            }
        } else {
            assert forall|n: Seq<char>|
                stripped_names(names).contains(n) == stripped_names(fewer).contains(n) by {
                prefix_and_rest(n, trailer_prefix());
            }
            assert(stripped_names(names) =~= stripped_names(fewer));
        }
    }
}

/// Tells whether the trailers among the headers of a Connect response are few
/// enough for [`split_trailers`].
pub fn check_trailers(m: &http::HeaderMap) -> (r: bool)
    ensures
        r == headers::has_room(trailer_part(headers::header_contents(*m))),
{
    let fields = fields_of(m);
    let ghost all = headers::header_contents(*m);
    let ghost views = headers::field_views(fields@);
    let mut marked = headers::copy_headers(m);
    let mut i: usize = 0;
    assert(only_trailers(all, names_of(views.take(0))) =~= all);
    while i < fields.len()
        invariant
            i <= fields@.len(),
            views == headers::field_views(fields@),
            views == headers::header_entries(*m),
            forall|k: int| 0 <= k < fields@.len() ==> headers::is_lower(#[trigger] fields@[k].name@),
            headers::header_contents(marked) == only_trailers(all, names_of(views.take(i as int))),
        decreases fields@.len() - i,
    {
        let ghost name = fields@[i as int].name@;
        let ghost seen = names_of(views.take(i as int));
        proof {
            field_views_step(fields@, i as int);
            names_of_push(views.take(i + 1));
            prefix_and_rest(name, trailer_prefix());
        }
        let is_trailer = match text::strip_prefix(fields[i].name.as_str(), "trailer-") {
            Some(rest) => {
                proof {
                    stripped_name(name, rest@);
                }
                headers::parse_header_name(rest.as_str()).is_some()
            },
            None => false,
        };
        assert(is_trailer == is_trailer_name(name));
        if is_trailer {
            assert(only_trailers(all, seen) =~= only_trailers(all, seen.insert(name)));
        } else {
            headers::remove_entry(&mut marked, m, i);
            assert(only_trailers(all, seen).remove(name) =~= only_trailers(all, seen.insert(name)));
        }
        i += 1;
    }
    let n: usize = headers::count_names(&marked);
    proof {
        assert(views.take(i as int) =~= views);
        let names = headers::header_contents(marked).dom();
        count_stripped_names(names);
        assert forall|n: Seq<char>|
            trailer_part(all).dom().contains(n) == stripped_names(names).contains(n) by {
            prefix_and_rest(n, trailer_prefix());
        }
        assert(trailer_part(all).dom() =~= stripped_names(names));
    }
    n <= headers::MAX_HEADER_NAMES
}

/// Some headers without those among them that have been seen and are no
/// trailers.
spec fn only_trailers(h: headers::Headers, seen: Set<Seq<char>>) -> headers::Headers {
    Map::new(
        |n: Seq<char>| h.dom().contains(n) && (seen.contains(n) ==> is_trailer_name(n)),
        |n: Seq<char>| h[n],
    )
}

/// The trailers of a response with few enough headers fit into a header map.
pub proof fn trailers_of_few_headers_fit(h: headers::Headers)
    requires
        headers::has_room(h),
    ensures
        headers::has_room(trailer_part(h)),
{
    count_stripped_names(h.dom());
    assert(trailer_part(h).dom() =~= stripped_names(h.dom()));
}

/// Every header of a response is in exactly one of its two parts, with its
/// values, but for one with the trailer prefix that no header name follows: it
/// is in neither.
pub proof fn parts_are_complete(h: headers::Headers, n: Seq<char>)
    requires
        h.dom().contains(n),
    ensures
        match text::after_prefix(n, trailer_prefix()) {
            Some(t) => {
                &&& !plain_part(h).dom().contains(n)
                &&& trailer_part(h).dom().contains(t) <==> headers::is_canonical_name(t)
                &&& headers::is_canonical_name(t) ==> trailer_part(h)[t] == h[n]
            },
            None => {
                &&& plain_part(h).dom().contains(n)
                &&& plain_part(h)[n] == h[n]
            },
        },
{
    prefix_and_rest(n, trailer_prefix());
}

} // verus!
