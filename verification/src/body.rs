//! Reading response bodies: what a body can bring next, and collecting a whole
//! body up to a limit.

use vstd::prelude::*;
use crate::error::{ConnectError, ErrorCode};
use crate::error;
use crate::headers;
use crate::text;

verus! {

/// What comes next out of a response body.
#[derive(Debug)]
pub enum BodyEvent {
    /// Some bytes.
    Data(Vec<u8>),
    /// The HTTP trailers.
    Trailers(http::HeaderMap),
    /// A failure of the transport, with its message.
    Error(String),
    /// The end of the body.
    Eof,
}

/// A body event in mathematical terms.
pub enum EventView {
    Data(Seq<u8>),
    Trailers(headers::Headers),
    Error(Seq<char>),
    Eof,
}

impl View for BodyEvent {
    type V = EventView;

    open spec fn view(&self) -> EventView {
        match self {
            BodyEvent::Data(d) => EventView::Data(d@),
            BodyEvent::Trailers(t) => EventView::Trailers(headers::header_contents(*t)),
            BodyEvent::Error(e) => EventView::Error(e@),
            BodyEvent::Eof => EventView::Eof,
        }
    }
}

/// A body that is being collected.
#[derive(Debug)]
pub struct BodyCollector {
    pub buf: Vec<u8>,
    pub max_size: usize,
}

/// How collecting a body stands.
pub enum Collected {
    /// These bytes so far.
    Open(Seq<u8>),
    /// The whole body.
    Complete(Seq<u8>),
    /// The body could not be collected.
    Failed(error::ErrorView),
}

/// The error for a body over its limit.
pub open spec fn body_too_large(limit: nat) -> error::ErrorView {
    error::plain_error(
        ErrorCode::ResourceExhausted,
        "response body size exceeds limit "@ + text::decimal(limit),
    )
}

/// The error for a body over its limit.
pub fn body_too_large_error(limit: usize) -> (r: ConnectError)
    ensures
        r@ == body_too_large(limit as nat),
{
    let m = text::join2(
        "response body size exceeds limit ",
        text::decimal_string(limit as u128).as_str(),
    );
    ConnectError::resource_exhausted(m.as_str())
}

/// The error for a body that could not be read.
pub open spec fn body_unreadable(cause: Seq<char>) -> error::ErrorView {
    error::plain_error(ErrorCode::Internal, "failed to read response body: "@ + cause)
}

/// The error for a body that could not be read.
pub fn body_unreadable_error(cause: &str) -> (r: ConnectError)
    ensures
        r@ == body_unreadable(cause@),
{
    ConnectError::internal(text::join2("failed to read response body: ", cause).as_str())
}

/// How collecting a body goes on with one more event. Trailers are passed over:
/// bodies that are collected do not use them.
pub open spec fn collect_step(buf: Seq<u8>, max_size: nat, event: EventView) -> Collected {
    match event {
        EventView::Data(d) => if buf.len() + d.len() > max_size {
            Collected::Failed(body_too_large(max_size))
        } else {
            Collected::Open(buf + d)
        },
        EventView::Trailers(_) => Collected::Open(buf),
        EventView::Error(e) => Collected::Failed(body_unreadable(e)),
        EventView::Eof => Collected::Complete(buf),
    }
}

/// How collecting a body goes on with some events.
pub open spec fn collect_all(state: Collected, max_size: nat, events: Seq<EventView>) -> Collected
    decreases events.len(),
{
    if events.len() == 0 {
        state
    } else {
        match collect_all(state, max_size, events.drop_last()) {
            Collected::Open(buf) => collect_step(buf, max_size, events.last()),
            ended => ended,
        }
    }
}

/// All the bytes in some events.
pub open spec fn data_in(events: Seq<EventView>) -> Seq<u8>
    decreases events.len(),
{
    if events.len() == 0 {
        Seq::empty()
    } else {
        match events.last() {
            EventView::Data(d) => data_in(events.drop_last()) + d,
            _ => data_in(events.drop_last()),
        }
    }
}

impl BodyCollector {
    /// A collector with a limit.
    pub fn new(max_size: usize) -> (r: Self)
        ensures
            r.buf@ == Seq::<u8>::empty(),
            r.max_size == max_size,
    {
        BodyCollector { buf: Vec::new(), max_size }
    }

    /// Takes the next event. Gives the whole body at its end, or the error that
    /// ends collecting it; nothing while there is more to come.
    pub fn on_event(&mut self, event: BodyEvent) -> (r: Option<Result<Vec<u8>, ConnectError>>)
        ensures
            final(self).max_size == old(self).max_size,
            match collect_step(old(self).buf@, old(self).max_size as nat, event@) {
                Collected::Open(buf) => r is None && final(self).buf@ == buf,
                Collected::Complete(buf) => r matches Some(Ok(b)) && b@ == buf && final(self).buf@
                    == Seq::<u8>::empty(),
                Collected::Failed(e) => r matches Some(Err(x)) && x@ == e && final(self).buf@
                    == old(self).buf@,
            },
    {
        match event {
            BodyEvent::Data(data) => {
                if self.buf.len() > self.max_size || data.len() > self.max_size - self.buf.len() {
                    return Some(Err(body_too_large_error(self.max_size)));
                }
                let mut data = data;
                self.buf.append(&mut data);
                None
            },
            BodyEvent::Trailers(_) => None,
            BodyEvent::Error(e) => Some(Err(body_unreadable_error(e.as_str()))),
            BodyEvent::Eof => {
                let mut whole: Vec<u8> = Vec::new();
                whole.append(&mut self.buf);
                assert(whole@ =~= old(self).buf@);
                Some(Ok(whole))
            },
        }
    }
}

/// A body within its limit is collected whole, however it was cut into pieces:
/// what comes out is the data of all events, one after the other.
pub proof fn collecting_keeps_all_data(events: Seq<EventView>, max_size: nat)
    requires
        forall|i: int|
            0 <= i < events.len() ==> (#[trigger] events[i] is Data || events[i] is Trailers),
        data_in(events).len() <= max_size,
    ensures
        collect_all(Collected::Open(Seq::empty()), max_size, events) == Collected::Open(
            data_in(events),
        ),
        collect_all(Collected::Open(Seq::empty()), max_size, events.push(EventView::Eof))
            == Collected::Complete(data_in(events)),
    decreases events.len(),
{
    if events.len() > 0 {
        let shorter = events.drop_last();
        assert forall|i: int| 0 <= i < shorter.len() implies (#[trigger] shorter[i] is Data
            || shorter[i] is Trailers) by {
            assert(events[i] is Data || events[i] is Trailers);
        }
        assert(events[events.len() - 1] is Data || events[events.len() - 1] is Trailers);
        collecting_keeps_all_data(shorter, max_size);
    }
    assert(events.push(EventView::Eof).drop_last() =~= events);
}

/// A body over its limit is refused, however it was cut into pieces.
pub proof fn collecting_refuses_large_bodies(events: Seq<EventView>, max_size: nat)
    requires
        forall|i: int|
            0 <= i < events.len() ==> (#[trigger] events[i] is Data || events[i] is Trailers),
        data_in(events).len() > max_size,
    ensures
        collect_all(Collected::Open(Seq::empty()), max_size, events) == Collected::Failed(
            body_too_large(max_size),
        ),
    decreases events.len(),
{
    if events.len() > 0 {
        let shorter = events.drop_last();
        assert forall|i: int| 0 <= i < shorter.len() implies (#[trigger] shorter[i] is Data
            || shorter[i] is Trailers) by {
            assert(events[i] is Data || events[i] is Trailers);
        }
        assert(events[events.len() - 1] is Data || events[events.len() - 1] is Trailers);
        if data_in(shorter).len() > max_size {
            collecting_refuses_large_bodies(shorter, max_size);
        } else {
            collecting_keeps_all_data(shorter, max_size);
        }
    }
}

/// A collector never holds more than its limit.
pub proof fn collector_is_bounded(events: Seq<EventView>, max_size: nat)
    ensures
        collect_all(Collected::Open(Seq::empty()), max_size, events) matches Collected::Open(buf)
            ==> buf.len() <= max_size,
    decreases events.len(),
{
    if events.len() > 0 {
        collector_is_bounded(events.drop_last(), max_size);
    }
}

} // verus!
