//! The END_STREAM envelope that ends every Connect stream: what it says of the
//! outcome, and the trailers it carries.

use vstd::prelude::*;
use crate::error::{ConnectError, ErrorCode};
use crate::error;
use crate::headers::HeaderField;
use crate::headers;
use crate::metadata;
use crate::unary::ConnectErrorResponse;
use crate::unary;

verus! {

/// The error in an END_STREAM envelope.
pub type ClientEndStreamError = ConnectErrorResponse;

/// The contents of an END_STREAM envelope: an error, if the call failed, and
/// the trailers, each with its values.
#[derive(Debug)]
pub struct ClientEndStreamResponse {
    pub error: Option<ClientEndStreamError>,
    pub metadata: Option<Vec<(String, Vec<String>)>>,
}

/// The trailers of an END_STREAM envelope as they were sent.
pub type MetadataView = Seq<(Seq<char>, Seq<Seq<char>>)>;

/// The contents of an END_STREAM envelope in mathematical terms.
#[verifier::ext_equal]
pub struct EndStreamView {
    pub error: Option<unary::ErrorBodyView>,
    pub metadata: Option<MetadataView>,
}

/// The views of some values.
pub open spec fn value_views(values: Seq<String>) -> Seq<Seq<char>> {
    values.map_values(|v: String| v@)
}

/// The views of trailers as they were sent.
pub open spec fn metadata_view(m: Seq<(String, Vec<String>)>) -> MetadataView {
    m.map_values(|e: (String, Vec<String>)| (e.0@, value_views(e.1@)))
}

impl View for ClientEndStreamResponse {
    type V = EndStreamView;

    open spec fn view(&self) -> EndStreamView {
        EndStreamView {
            error: match self.error {
                Some(e) => Some(e@),
                None => None,
            },
            metadata: match self.metadata {
                Some(m) => Some(metadata_view(m@)),
                None => None,
            },
        }
    }
}

impl Default for ClientEndStreamResponse {
    fn default() -> (r: Self)
        ensures
            r@ == (EndStreamView { error: None, metadata: None }),
    {
        ClientEndStreamResponse { error: None, metadata: None }
    }
}

/// The headers that one name and its values make. What cannot be a header is
/// passed over.
pub open spec fn entry_fields(name: Seq<char>, values: Seq<Seq<char>>) -> Seq<
    (Seq<char>, (Seq<u8>, bool)),
>
    decreases values.len(),
{
    if values.len() == 0 {
        Seq::empty()
    } else {
        let before = entry_fields(name, values.drop_last());
        let bytes = vstd::utf8::encode_utf8(values.last());
        if headers::header_name_of(name) is Some && headers::is_header_value(bytes) {
            before.push((headers::header_name_of(name)->Some_0, (bytes, false)))
        } else {
            before
        }
    }
}

/// The headers that some trailers make.
pub open spec fn metadata_fields(m: MetadataView) -> Seq<(Seq<char>, (Seq<u8>, bool))>
    decreases m.len(),
{
    if m.len() == 0 {
        Seq::empty()
    } else {
        metadata_fields(m.drop_last()) + entry_fields(m.last().0, m.last().1)
    }
}

/// Trailers as a header map holds them.
pub open spec fn end_trailers(m: MetadataView) -> headers::Headers {
    headers::with_fields(headers::no_headers(), metadata_fields(m))
}

/// Trailers, or none.
pub open spec fn optional_trailers(m: Option<MetadataView>) -> Option<headers::Headers> {
    match m {
        Some(m) => Some(end_trailers(m)),
        None => None,
    }
}

impl EndStreamView {
    /// Whether the trailers are few enough for a header map to be sure to hold
    /// them.
    pub open spec fn fits(self) -> bool {
        self.metadata matches Some(m) ==> headers::has_room(end_trailers(m))
    }

    /// The error of the call, if it failed.
    pub open spec fn failure(self) -> Option<error::ErrorView> {
        match self.error {
            Some(e) => Some(unary::described_error(e, ErrorCode::Unknown)),
            None => None,
        }
    }
}

impl ClientEndStreamResponse {
    /// Tells whether the trailers are few. Few trailers fit into a header map.
    pub fn check_fit(&self) -> (r: bool)
        ensures
            r == (self@.metadata matches Some(m) ==> m.len() <= headers::MAX_HEADER_NAMES),
            r ==> self@.fits(),
    {
        match &self.metadata {
            Some(m) => {
                proof {
                    if m.len() <= headers::MAX_HEADER_NAMES {
                        few_entries_fit(metadata_view(m@));
                    }
                }
                m.len() <= headers::MAX_HEADER_NAMES
            },
            None => true,
        }
    }
}

/// Adds the headers that one name and its values make to a list.
fn push_entry(fields: &mut Vec<HeaderField>, name: &String, values: &Vec<String>)
    requires
        forall|i: int| 0 <= i < old(fields)@.len() ==> (#[trigger] old(fields)@[i]).wf(),
    ensures
        headers::field_views(final(fields)@) == headers::field_views(old(fields)@) + entry_fields(
            name@,
            value_views(values@),
        ),
        forall|i: int| 0 <= i < final(fields)@.len() ==> (#[trigger] final(fields)@[i]).wf(),
{
    let ghost views = value_views(values@);
    let ghost start = headers::field_views(fields@);
    let mut i: usize = 0;
    proof {
        assert(views.take(0) =~= Seq::empty());
        assert(start + entry_fields(name@, views.take(0)) =~= start);
        headers::header_names_are_canonical(name@);
    }
    while i < values.len()
        invariant
            i <= values@.len(),
            views == value_views(values@),
            headers::header_name_of(name@) matches Some(n) ==> headers::is_http2_name(n),
            forall|k: int| 0 <= k < fields@.len() ==> (#[trigger] fields@[k]).wf(),
            headers::field_views(fields@) == start + entry_fields(name@, views.take(i as int)),
        decreases values@.len() - i,
    {
        proof {
            assert(views.take(i + 1).drop_last() =~= views.take(i as int));
            assert(views.take(i + 1).last() == values@[i as int]@);
        }
        let ghost before = fields@;
        let ghost so_far = entry_fields(name@, views.take(i as int));
        if let Some(n) = headers::parse_header_name(name.as_str()) {
            if let Some(value) = headers::parse_header_value(values[i].as_str()) {
                let f = HeaderField { name: n, value, sensitive: false };
                fields.push(f);
                assert(headers::field_views(fields@) =~= headers::field_views(before).push(f@));
                assert(start + so_far.push(f@) =~= (start + so_far).push(f@));
            }
        }
        i += 1;
    }
    assert(views.take(i as int) =~= views);
}

/// Turns trailers into a header map.
pub fn build_trailers(m: &Vec<(String, Vec<String>)>) -> (r: http::HeaderMap)
    requires
        headers::has_room(end_trailers(metadata_view(m@))),
    ensures
        headers::header_contents(r) == end_trailers(metadata_view(m@)),
{
    let ghost views = metadata_view(m@);
    let mut fields: Vec<HeaderField> = Vec::new();
    let mut i: usize = 0;
    proof {
        assert(views.take(0) =~= Seq::empty());
        assert(headers::field_views(fields@) =~= metadata_fields(views.take(0)));
    }
    while i < m.len()
        invariant
            i <= m@.len(),
            views == metadata_view(m@),
            forall|k: int| 0 <= k < fields@.len() ==> (#[trigger] fields@[k]).wf(),
            headers::field_views(fields@) == metadata_fields(views.take(i as int)),
        decreases m@.len() - i,
    {
        proof {
            assert(views.take(i + 1).drop_last() =~= views.take(i as int));
            assert(views.take(i + 1).last() == (m@[i as int].0@, value_views(m@[i as int].1@)));
        }
        push_entry(&mut fields, &m[i].0, &m[i].1);
        i += 1;
    }
    assert(views.take(i as int) =~= views);
    let mut trailers = headers::new_headers();
    metadata::append_all(&mut trailers, &fields);
    trailers
}

/// Makes the error of a call out of its END_STREAM envelope, if it failed.
pub fn build_failure(e: Option<ClientEndStreamError>) -> (r: Option<ConnectError>)
    ensures
        match e {
            Some(e) => r is Some && r->Some_0@ == unary::described_error(e@, ErrorCode::Unknown),
            None => r is None,
        },
{
    match e {
        Some(e) => Some(unary::build_described_error(e, ErrorCode::Unknown)),
        None => None,
    }
}

/// A name and its values make headers of that name only.
proof fn entry_fields_names(name: Seq<char>, values: Seq<Seq<char>>)
    ensures
        forall|i: int|
            0 <= i < entry_fields(name, values).len() ==> headers::header_name_of(name) == Some(
                (#[trigger] entry_fields(name, values)[i]).0,
            ),
    decreases values.len(),
{
    if values.len() > 0 {
        let before = entry_fields(name, values.drop_last());
        let all = entry_fields(name, values);
        entry_fields_names(name, values.drop_last());
        assert forall|i: int| 0 <= i < all.len() implies headers::header_name_of(name) == Some(
            (#[trigger] all[i]).0,
        ) by {
            if i < before.len() {
                assert(all[i] == before[i]);
            }
        }
    }
}

/// Trailers of few enough entries fit into a header map.
pub proof fn few_entries_fit(m: MetadataView)
    requires
        m.len() <= headers::MAX_HEADER_NAMES,
    ensures
        headers::has_room(end_trailers(m)),
{
    trailer_names(m);
}

/// Trailers have at most as many names as entries.
proof fn trailer_names(m: MetadataView)
    ensures
        end_trailers(m).dom().finite(),
        end_trailers(m).dom().len() <= m.len(),
    decreases m.len(),
{
    let all = metadata_fields(m);
    metadata::with_fields_names(headers::no_headers(), all);
    assert(headers::no_headers().dom() =~= Set::empty());
    if m.len() > 0 {
        let before = metadata_fields(m.drop_last());
        let entry = entry_fields(m.last().0, m.last().1);
        trailer_names(m.drop_last());
        metadata::with_fields_names(headers::no_headers(), before);
        entry_fields_names(m.last().0, m.last().1);
        let old_names = end_trailers(m.drop_last()).dom();
        let new_names = end_trailers(m).dom();
        match headers::header_name_of(m.last().0) {
            Some(n) => {
                assert forall|x: Seq<char>| new_names.contains(x) implies old_names.insert(
                    n,
                ).contains(x) by {
                    let i = choose|i: int| 0 <= i < all.len() && (#[trigger] all[i]).0 == x;
                    if i < before.len() {
                        assert(before[i].0 == x);
                    } else {
                        assert(entry[i - before.len()].0 == x);
                    }
                }
                vstd::set_lib::lemma_len_subset(new_names, old_names.insert(n));
            },
            None => {
                assert forall|x: Seq<char>| new_names.contains(x) implies old_names.contains(x) by {
                    let i = choose|i: int| 0 <= i < all.len() && (#[trigger] all[i]).0 == x;
                    if i < before.len() {
                        assert(before[i].0 == x);
                    } else {
                        assert(entry[i - before.len()].0 == x);
                    }
                }
                vstd::set_lib::lemma_len_subset(new_names, old_names);
            },
        }
    }
}

} // verus!
