//! Header maps: their contents as a mathematical map, and the operations of
//! `http::HeaderMap` that the client needs.

use vstd::prelude::*;

verus! {

/// `http::HeaderMap`, an opaque multimap.
#[verifier::external_type_specification]
#[verifier::external_body]
#[verifier::reject_recursive_types(T)]
pub struct ExHeaderMap<T>(http::HeaderMap<T>);

/// `http::HeaderValue`, the value type of a header map.
#[verifier::external_type_specification]
#[verifier::external_body]
pub struct ExHeaderValue(http::HeaderValue);

/// What a header map holds: for each (lower-case) name the values in the order
/// in which they were added, each with its sensitivity mark.
pub type Headers = Map<Seq<char>, Seq<(Seq<u8>, bool)>>;

/// The contents without any header.
pub open spec fn no_headers() -> Headers {
    Map::empty()
}

/// The contents of a header map.
pub uninterp spec fn header_contents(m: http::HeaderMap) -> Map<Seq<char>, Seq<(Seq<u8>, bool)>>;

/// The headers of a header map in the order in which it hands them out.
pub uninterp spec fn header_entries(m: http::HeaderMap) -> Seq<(Seq<char>, (Seq<u8>, bool))>;

/// One header as plain values: name, value bytes, and whether the value is
/// marked as sensitive.
#[derive(Debug)]
pub struct HeaderField {
    pub name: String,
    pub value: Vec<u8>,
    pub sensitive: bool,
}

/// The largest number of distinct names a map may hold for another value to be
/// appended whatever the state of its hash table.
pub const MAX_HEADER_NAMES: usize = 6553;

/// Whether a character may occur in a header name.
pub open spec fn is_token_char(c: char) -> bool {
    ||| 'a' <= c <= 'z'
    ||| 'A' <= c <= 'Z'
    ||| '0' <= c <= '9'
    ||| c == '!'
    ||| c == '#'
    ||| c == '$'
    ||| c == '%'
    ||| c == '&'
    ||| c == '\''
    ||| c == '*'
    ||| c == '+'
    ||| c == '-'
    ||| c == '.'
    ||| c == '^'
    ||| c == '_'
    ||| c == '`'
    ||| c == '|'
    ||| c == '~'
}

/// A character with upper-case ASCII letters turned to lower case.
pub open spec fn lower(c: char) -> char {
    if 'A' <= c <= 'Z' {
        (c as u32 + 32) as char
    } else {
        c
    }
}

/// Whether a text holds no upper-case ASCII letter.
pub open spec fn is_lower(s: Seq<char>) -> bool {
    forall|i: int| 0 <= i < s.len() ==> lower(#[trigger] s[i]) == s[i]
}

/// Whether a text can be made into a header name.
pub open spec fn is_header_name(s: Seq<char>) -> bool {
    &&& 1 <= s.len() <= 65535
    &&& forall|i: int| 0 <= i < s.len() ==> is_token_char(#[trigger] s[i])
}

/// The header name a text stands for.
pub open spec fn header_name_of(s: Seq<char>) -> Option<Seq<char>> {
    if is_header_name(s) {
        Some(s.map_values(|c: char| lower(c)))
    } else {
        None
    }
}

/// Whether a text is a header name in its canonical, lower-case form.
pub open spec fn is_canonical_name(s: Seq<char>) -> bool {
    header_name_of(s) == Some(s)
}

/// Whether a text can be a header name in HTTP/2. Besides canonical names these
/// are names with quotation marks.
pub open spec fn is_http2_name(s: Seq<char>) -> bool {
    &&& 1 <= s.len() <= 65535
    &&& forall|i: int|
        0 <= i < s.len() ==> (is_token_char(#[trigger] s[i]) && lower(s[i]) == s[i]) || s[i] == '"'
}

/// Every canonical name can be a header name in HTTP/2.
pub proof fn canonical_names_are_http2_names(s: Seq<char>)
    ensures
        is_canonical_name(s) ==> is_http2_name(s),
{
    if is_canonical_name(s) {
        let low = s.map_values(|c: char| lower(c));
        assert forall|i: int| 0 <= i < s.len() implies is_token_char(#[trigger] s[i]) && lower(s[i])
            == s[i] by {
            assert(low[i] == lower(s[i]));
        }
    }
}

/// The header name that a text stands for is canonical.
pub proof fn header_names_are_canonical(s: Seq<char>)
    ensures
        header_name_of(s) matches Some(n) ==> is_canonical_name(n) && is_http2_name(n),
{
    if let Some(n) = header_name_of(s) {
        assert forall|i: int| 0 <= i < n.len() implies is_token_char(#[trigger] n[i]) by {
            assert(is_token_char(s[i]));
        }
        assert(n.map_values(|c: char| lower(c)) =~= n);
        canonical_names_are_http2_names(n);
    }
}

/// Whether bytes can be made into a header value.
pub open spec fn is_header_value(b: Seq<u8>) -> bool {
    forall|i: int| 0 <= i < b.len() ==> (#[trigger] b[i] >= 32 && b[i] != 127) || b[i] == 9
}

/// The values of one name; none when the name is absent.
pub open spec fn values_of(h: Headers, name: Seq<char>) -> Seq<(Seq<u8>, bool)> {
    if h.dom().contains(name) {
        h[name]
    } else {
        Seq::empty()
    }
}

/// A map with one more value for a name, after those already there.
pub open spec fn with_value(h: Headers, name: Seq<char>, value: (Seq<u8>, bool)) -> Headers {
    h.insert(name, values_of(h, name).push(value))
}

/// The map that results from adding fields one after the other.
pub open spec fn with_fields(
    h: Headers,
    fields: Seq<(Seq<char>, (Seq<u8>, bool))>,
) -> Headers
    decreases fields.len(),
{
    if fields.len() == 0 {
        h
    } else {
        with_value(with_fields(h, fields.drop_last()), fields.last().0, fields.last().1)
    }
}

/// Whether a map has few enough names to take another value.
pub open spec fn has_room(h: Headers) -> bool {
    h.dom().finite() && h.dom().len() <= MAX_HEADER_NAMES
}

/// Whether a map has this many names.
pub open spec fn has_names(h: Headers, n: nat) -> bool {
    h.dom().finite() && h.dom().len() == n
}

impl View for HeaderField {
    type V = (Seq<char>, (Seq<u8>, bool));

    open spec fn view(&self) -> (Seq<char>, (Seq<u8>, bool)) {
        (self.name@, (self.value@, self.sensitive))
    }
}

impl Clone for HeaderField {
    fn clone(&self) -> (r: Self)
        ensures
            r@ == self@,
    {
        HeaderField {
            name: self.name.clone(),
            value: vstd::slice::slice_to_vec(self.value.as_slice()),
            sensitive: self.sensitive,
        }
    }
}

impl HeaderField {
    /// Whether name and value can be put into a header map.
    pub open spec fn wf(&self) -> bool {
        is_http2_name(self.name@) && is_header_value(self.value@)
    }

    /// A header out of a name, in either case, and the bytes of a value; nothing
    /// when the name or the value cannot be part of a header.
    pub fn new(name: &str, value: &[u8], sensitive: bool) -> (r: Option<Self>)
        ensures
            match r {
                Some(f) => {
                    &&& f.wf()
                    &&& header_name_of(name@) == Some(f.name@)
                    &&& f@.1 == (value@, sensitive)
                },
                None => header_name_of(name@) is None || !is_header_value(value@),
            },
    {
        proof {
            header_names_are_canonical(name@);
        }
        if !check_value(value) {
            return None;
        }
        match parse_header_name(name) {
            Some(name) => Some(
                HeaderField { name, value: vstd::slice::slice_to_vec(value), sensitive },
            ),
            None => None,
        }
    }
}

/// What can be given as the value of a header: text, bytes, or bytes that are to
/// be kept out of logs.
pub trait ToHeaderValue: Sized {
    /// The bytes, and whether they are to be kept out of logs.
    spec fn given(self) -> (Seq<u8>, bool);

    /// The bytes, and whether they are to be kept out of logs; nothing when they
    /// cannot be a header value.
    fn to_header_value(self) -> (r: Option<(Vec<u8>, bool)>)
        ensures
            match r {
                Some(v) => is_header_value(self.given().0) && (v.0@, v.1) == self.given(),
                None => !is_header_value(self.given().0),
            },
    ;
}

impl ToHeaderValue for &str {
    open spec fn given(self) -> (Seq<u8>, bool) {
        (vstd::utf8::encode_utf8(self@), false)
    }

    fn to_header_value(self) -> (r: Option<(Vec<u8>, bool)>) {
        match parse_header_value(self) {
            Some(value) => Some((value, false)),
            None => None,
        }
    }
}

impl ToHeaderValue for &[u8] {
    open spec fn given(self) -> (Seq<u8>, bool) {
        (self@, false)
    }

    fn to_header_value(self) -> (r: Option<(Vec<u8>, bool)>) {
        if check_value(self) {
            Some((vstd::slice::slice_to_vec(self), false))
        } else {
            None
        }
    }
}

/// Bytes that are to be kept out of logs.
#[derive(Clone)]
pub struct SensitiveValue(pub Vec<u8>);

impl ToHeaderValue for SensitiveValue {
    open spec fn given(self) -> (Seq<u8>, bool) {
        (self.0@, true)
    }

    fn to_header_value(self) -> (r: Option<(Vec<u8>, bool)>) {
        if check_value(self.0.as_slice()) {
            Some((self.0, true))
        } else {
            None
        }
    }
}

/// Tells whether bytes can be made into a header value.
fn check_value(b: &[u8]) -> (r: bool)
    ensures
        r == is_header_value(b@),
{
    let mut i: usize = 0;
    while i < b.len()
        invariant
            i <= b@.len(),
            forall|k: int| 0 <= k < i ==> (#[trigger] b@[k] >= 32 && b@[k] != 127) || b@[k] == 9,
        decreases b@.len() - i,
    {
        if !((b[i] >= 32 && b[i] != 127) || b[i] == 9) {
            assert(!((b@[i as int] >= 32 && b@[i as int] != 127) || b@[i as int] == 9));
            return false;
        }
        i += 1;
    }
    true
}

/// The views of a sequence of fields.
pub open spec fn field_views(
    fields: Seq<HeaderField>,
) -> Seq<(Seq<char>, (Seq<u8>, bool))> {
    fields.map_values(|f: HeaderField| f@)
}

/// `http::HeaderMap::new` gives a map without headers.
#[verifier::external_body]
pub(crate) fn new_headers() -> (r: http::HeaderMap)
    ensures
        header_contents(r) == no_headers(),
{
    http::HeaderMap::new()
}

/// `http::HeaderMap::clone` gives a map with the same contents.
#[verifier::external_body]
pub(crate) fn copy_headers(m: &http::HeaderMap) -> (r: http::HeaderMap)
    ensures
        header_contents(r) == header_contents(*m),
{
    m.clone()
}

/// `http::HeaderMap::is_empty` tells whether there is any header.
#[verifier::external_body]
pub(crate) fn is_empty(m: &http::HeaderMap) -> (r: bool)
    ensures
        r == (header_contents(*m) == no_headers()),
{
    m.is_empty()
}

/// `http::HeaderMap::keys_len` gives the number of names, each counted once.
#[verifier::external_body]
pub(crate) fn count_names(m: &http::HeaderMap) -> (r: usize)
    ensures
        has_names(header_contents(*m), r as nat),
{
    m.keys_len()
}

/// Whether a map has few enough names to take another value.
pub fn check_room(m: &http::HeaderMap) -> (r: bool)
    ensures
        r == has_room(header_contents(*m)),
{
    count_names(m) <= MAX_HEADER_NAMES
}

/// `http::HeaderMap::get`, called with a lower-case name, gives the first value
/// of the name, or nothing when the name is absent.
#[verifier::external_body]
pub(crate) fn first_value(m: &http::HeaderMap, name: &str) -> (r: Option<HeaderField>)
    requires
        is_canonical_name(name@),
    ensures
        match r {
            Some(f) => {
                &&& header_contents(*m).dom().contains(name@)
                &&& header_contents(*m)[name@].len() > 0
                &&& f.name@ == name@
                &&& f@.1 == header_contents(*m)[name@][0]
            },
            None => !header_contents(*m).dom().contains(name@),
        },
{
    m.get(name).map(
        |v| HeaderField {
            name: name.to_owned(),
            value: v.as_bytes().to_vec(),
            sensitive: v.is_sensitive(),
        },
    )
}

/// `http::HeaderMap::append`, called with a name out of
/// `http::HeaderName::from_lowercase`, which takes the names of HTTP/2, adds a
/// value after those the name already has. It panics only when the map's table
/// cannot grow further, which needs more than `MAX_HEADER_NAMES` names.
#[verifier::external_body]
pub(crate) fn append_field(m: &mut http::HeaderMap, f: &HeaderField)
    requires
        f.wf(),
        has_room(header_contents(*old(m))),
    ensures
        header_contents(*final(m)) == with_value(header_contents(*old(m)), f@.0, f@.1),
{
    let name = http::HeaderName::from_lowercase(f.name.as_bytes()).unwrap();
    let mut value = http::HeaderValue::from_bytes(&f.value).unwrap();
    value.set_sensitive(f.sensitive);
    m.append(name, value);
}

/// `http::HeaderMap::try_append` adds a value as `append` does. It fails only
/// when the map's table cannot grow further, which needs more than
/// `MAX_HEADER_NAMES` names; the contents then stay as they were.
#[verifier::external_body]
pub(crate) fn try_append_field(m: &mut http::HeaderMap, f: &HeaderField) -> (r: bool)
    requires
        f.wf(),
    ensures
        r ==> header_contents(*final(m)) == with_value(header_contents(*old(m)), f@.0, f@.1),
        !r ==> header_contents(*final(m)) == header_contents(*old(m)),
        !r ==> !has_room(header_contents(*old(m))),
{
    let name = http::HeaderName::from_lowercase(f.name.as_bytes()).unwrap();
    let mut value = http::HeaderValue::from_bytes(&f.value).unwrap();
    value.set_sensitive(f.sensitive);
    m.try_append(name, value).is_ok()
}

/// `http::HeaderMap::remove`, called with a name out of
/// `http::HeaderName::from_lowercase`, takes out all values of the name.
#[verifier::external_body]
pub(crate) fn remove_name(m: &mut http::HeaderMap, name: &str)
    requires
        is_http2_name(name@),
    ensures
        header_contents(*final(m)) == header_contents(*old(m)).remove(name@),
{
    m.remove(http::HeaderName::from_lowercase(name.as_bytes()).unwrap());
}

/// `http::HeaderMap::append`, called with a header that `http::HeaderMap::iter`
/// hands out of another map, adds its value after those the name already has. It
/// panics only when the map's table cannot grow further, which needs more than
/// `MAX_HEADER_NAMES` names.
#[verifier::external_body]
pub(crate) fn append_entry(m: &mut http::HeaderMap, from: &http::HeaderMap, i: usize)
    requires
        i < header_entries(*from).len(),
        has_room(header_contents(*old(m))),
    ensures
        header_contents(*final(m)) == with_value(
            header_contents(*old(m)),
            header_entries(*from)[i as int].0,
            header_entries(*from)[i as int].1,
        ),
{
    let (name, value) = from.iter().nth(i).unwrap();
    m.append(name.clone(), value.clone());
}

/// `http::HeaderMap::append`, called with a name out of
/// `http::HeaderName::from_lowercase` and the value of a header that
/// `http::HeaderMap::iter` hands out of another map, adds the value after those
/// the name already has. It panics only when the map's table cannot grow further,
/// which needs more than `MAX_HEADER_NAMES` names.
#[verifier::external_body]
pub(crate) fn append_entry_as(m: &mut http::HeaderMap, name: &str, from: &http::HeaderMap, i: usize)
    requires
        is_http2_name(name@),
        i < header_entries(*from).len(),
        has_room(header_contents(*old(m))),
    ensures
        header_contents(*final(m)) == with_value(
            header_contents(*old(m)),
            name@,
            header_entries(*from)[i as int].1,
        ),
{
    let (_, value) = from.iter().nth(i).unwrap();
    let name = http::HeaderName::from_lowercase(name.as_bytes()).unwrap();
    m.append(name, value.clone());
}

/// `http::HeaderMap::remove`, called with the name of a header that
/// `http::HeaderMap::iter` hands out of another map, takes out all values of the
/// name.
#[verifier::external_body]
pub(crate) fn remove_entry(m: &mut http::HeaderMap, from: &http::HeaderMap, i: usize)
    requires
        i < header_entries(*from).len(),
    ensures
        header_contents(*final(m)) == header_contents(*old(m)).remove(
            header_entries(*from)[i as int].0,
        ),
{
    let (name, _) = from.iter().nth(i).unwrap();
    m.remove(name);
}

/// `http::HeaderMap::iter` hands out every header, the values of one name in
/// the order in which they were added. Names are in lower case. In which order
/// the names come, and which characters they hold, is left open.
#[verifier::external_body]
pub(crate) fn list_fields(m: &http::HeaderMap) -> (r: Vec<HeaderField>)
    ensures
        field_views(r@) == header_entries(*m),
        with_fields(no_headers(), field_views(r@)) == header_contents(*m),
        forall|i: int| 0 <= i < r@.len() ==> is_lower(#[trigger] r@[i].name@),
{
    m.iter().map(
        |(n, v)| HeaderField {
            name: n.as_str().to_owned(),
            value: v.as_bytes().to_vec(),
            sensitive: v.is_sensitive(),
        },
    ).collect()
}

/// `http::HeaderName::from_bytes` accepts non-empty texts of token characters
/// of at most 65535 bytes and turns them to lower case.
#[verifier::external_body]
pub(crate) fn parse_header_name(s: &str) -> (r: Option<String>)
    ensures
        match r {
            Some(n) => header_name_of(s@) == Some(n@),
            None => header_name_of(s@) is None,
        },
{
    http::HeaderName::from_bytes(s.as_bytes()).ok().map(|n| n.as_str().to_owned())
}

/// `http::HeaderValue::from_str` accepts texts without control characters
/// other than the tab.
#[verifier::external_body]
pub(crate) fn parse_header_value(s: &str) -> (r: Option<Vec<u8>>)
    ensures
        match r {
            Some(v) => is_header_value(v@) && v@ == vstd::utf8::encode_utf8(s@),
            None => !is_header_value(vstd::utf8::encode_utf8(s@)),
        },
{
    http::HeaderValue::from_str(s).ok().map(|v| v.as_bytes().to_vec())
}

} // verus!
