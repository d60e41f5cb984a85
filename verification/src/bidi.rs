//! Bidirectional streams: the sending side, and the receiving side that waits
//! for the response's head and then reads it as a stream.

use vstd::prelude::*;
use crate::call::{StreamingCall, StreamingView};
use crate::call;
use crate::compression::CompressionRegistry;
use crate::compression;
use crate::config::{CallOptions, ClientConfig};
use crate::config;
use crate::envelope::EnvelopeEncoder;
use crate::envelope;
use crate::error::{ConnectError, ErrorCode};
use crate::error;
use crate::headers;
use crate::protocol::{CodecFormat, Protocol};
use crate::stream::{ServerStream, StartView, StepView, StreamErrorResponse, StreamErrorView,
    StreamStart, StreamStep, StreamView};
use crate::stream;

verus! {

/// The receiving side of a bidirectional stream.
#[derive(Debug)]
pub enum RecvState {
    /// The request is on its way; the response's head has not arrived.
    Pending,
    /// The response is being read.
    Ready(ServerStream),
    /// There is no response to read. The stream's error says why.
    Failed,
}

/// What is needed to read the response once its head arrives.
#[derive(Debug, Clone, Copy)]
pub struct StreamConfig {
    pub protocol: Protocol,
    pub codec_format: CodecFormat,
    pub compression: CompressionRegistry,
    pub max_message_size: Option<usize>,
}

/// A bidirectional stream.
#[derive(Debug)]
pub struct BidiStream {
    pub send_open: bool,
    pub encoder: EnvelopeEncoder,
    pub recv: RecvState,
    pub stream_config: StreamConfig,
    /// Why there is no response to read.
    pub construct_err: Option<ConnectError>,
}

/// The receiving side in mathematical terms.
pub enum RecvView {
    Pending,
    Ready(StreamView),
    Failed,
}

/// A bidirectional stream in mathematical terms.
#[verifier::ext_equal]
pub struct BidiView {
    pub send_open: bool,
    pub encoder: envelope::EncoderView,
    pub recv: RecvView,
    pub stream_config: StreamConfig,
    pub construct_err: Option<error::ErrorView>,
}

impl View for RecvState {
    type V = RecvView;

    open spec fn view(&self) -> RecvView {
        match self {
            RecvState::Pending => RecvView::Pending,
            RecvState::Ready(s) => RecvView::Ready(s@),
            RecvState::Failed => RecvView::Failed,
        }
    }
}

impl View for BidiStream {
    type V = BidiView;

    open spec fn view(&self) -> BidiView {
        BidiView {
            send_open: self.send_open,
            encoder: self.encoder@,
            recv: self.recv@,
            stream_config: self.stream_config,
            construct_err: match self.construct_err {
                Some(e) => Some(e@),
                None => None,
            },
        }
    }
}

/// What receiving the next message gives.
#[derive(Debug)]
pub enum BidiStep {
    /// The response's head is needed, to be handed to
    /// [`BidiStream::on_response`].
    NeedResponse,
    /// There is no response to read.
    Failed(ConnectError),
    /// What the response's stream gives.
    Stream(StreamStep),
}

/// A step in mathematical terms.
pub enum BidiStepView {
    NeedResponse,
    Failed(error::ErrorView),
    Stream(StepView),
}

impl View for BidiStep {
    type V = BidiStepView;

    open spec fn view(&self) -> BidiStepView {
        match self {
            BidiStep::NeedResponse => BidiStepView::NeedResponse,
            BidiStep::Failed(e) => BidiStepView::Failed(e@),
            BidiStep::Stream(s) => BidiStepView::Stream(s@),
        }
    }
}

/// The error of a stream that failed without a reason on record.
pub open spec fn failed_state() -> error::ErrorView {
    error::plain_error(ErrorCode::Internal, "stream in failed state"@)
}

impl BidiView {
    /// What receiving the next message gives, and the stream after it. `read` is
    /// what was read out of the trailer frame at the front of the response's
    /// buffer.
    pub open spec fn stepped(
        self,
        read: Option<headers::Headers>,
        deadline_passed: bool,
    ) -> (BidiView, BidiStepView) {
        match self.construct_err {
            Some(e) => (self, BidiStepView::Failed(e)),
            None => match self.recv {
                RecvView::Pending => (self, BidiStepView::NeedResponse),
                RecvView::Failed => (self, BidiStepView::Failed(failed_state())),
                RecvView::Ready(s) => {
                    let (next, step) = s.stepped(read, deadline_passed);
                    (
                        BidiView { recv: RecvView::Ready(next), ..self },
                        BidiStepView::Stream(step),
                    )
                },
            },
        }
    }

    /// Whether `read` is what can be read out of the trailer frame at the front
    /// of the response's buffer.
    pub open spec fn can_read(self, read: Option<headers::Headers>) -> bool {
        self.recv matches RecvView::Ready(s) ==> s.can_read(read)
    }

    /// Whether receiving the next message can give `r`.
    pub open spec fn can_step(self, deadline_passed: bool, r: (BidiView, BidiStepView)) -> bool {
        exists|read: Option<headers::Headers>| #[trigger]
            self.can_read(read) && r == self.stepped(read, deadline_passed)
    }

    /// The stream without a response to read.
    pub open spec fn failed(self, e: error::ErrorView) -> BidiView {
        BidiView { recv: RecvView::Failed, construct_err: Some(e), ..self }
    }

    /// The stream after its request was answered or failed, and the error
    /// response that has yet to be read, if there is one.
    pub open spec fn answered(
        self,
        response: Result<(u16, headers::Headers), error::ErrorView>,
    ) -> (BidiView, Option<StreamErrorView>) {
        match response {
            Err(e) => (self.failed(e), None),
            Ok((status, h)) => match stream::stream_start(
                status,
                h,
                self.stream_config.protocol,
                self.stream_config.compression,
                self.stream_config.codec_format,
                self.stream_config.max_message_size,
            ) {
                StartView::Stream(s) => (BidiView { recv: RecvView::Ready(s), ..self }, None),
                StartView::Failed(e) => (self.failed(e), None),
                StartView::ErrorResponse(r) => (
                    BidiView { recv: RecvView::Failed, ..self },
                    Some(r),
                ),
            },
        }
    }

    /// What sending a message gives, up to the envelope to be sent: an error
    /// past the deadline; an error once sending was closed; the message's own
    /// error when it could not be encoded; else what the encoder gives.
    pub open spec fn sends(
        self,
        message: Result<Seq<u8>, error::ErrorView>,
        deadline_passed: bool,
        r: Result<Seq<u8>, error::ErrorView>,
    ) -> bool {
        if deadline_passed {
            r == Err::<Seq<u8>, error::ErrorView>(stream::deadline_error())
        } else if !self.send_open {
            r == Err::<Seq<u8>, error::ErrorView>(
                error::plain_error(ErrorCode::Internal, "send after close_send"@),
            )
        } else {
            call::is_sent_message(self.encoder, message, r)
        }
    }
}

/// A bidirectional stream that has just been opened.
pub open spec fn opened(call: StreamingView, config: config::ConfigView) -> BidiView {
    BidiView {
        send_open: true,
        encoder: call.encoder,
        recv: RecvView::Pending,
        stream_config: StreamConfig {
            protocol: config.protocol,
            codec_format: config.codec_format,
            compression: config.compression,
            max_message_size: call.options.max_message_size,
        },
        construct_err: None,
    }
}

/// A bidirectional call to be sent: its request without a body, its options
/// with the defaults filled in, and the stream.
#[derive(Debug)]
pub struct BidiCall {
    pub request: call::HttpRequest,
    pub options: CallOptions,
    pub stream: BidiStream,
}

/// Opens a bidirectional call. No message is sent before the first
/// [`BidiStream::send`].
pub fn call_bidi_stream(
    config: &ClientConfig,
    service: &str,
    method: &str,
    options: CallOptions,
) -> (r: Result<BidiCall, ConnectError>)
    requires
        call::headers_fit(config@, options@),
    ensures
        match call::streaming_call(config@, service@, method@, options@) {
            Err(e) => r is Err && r->Err_0@ == e,
            Ok(c) => {
                &&& r is Ok
                &&& r->Ok_0.request@ == c.request
                &&& r->Ok_0.options@ == c.options
                &&& r->Ok_0.stream@ == opened(c, config@)
            },
        },
{
    let c = match call::call_client_stream(config, service, method, options) {
        Ok(c) => c,
        Err(e) => {
            return Err(e);
        },
    };
    let StreamingCall { request, encoder, options } = c;
    let stream = BidiStream {
        send_open: true,
        encoder,
        recv: RecvState::Pending,
        stream_config: StreamConfig {
            protocol: config.protocol,
            codec_format: config.codec_format,
            compression: config.compression,
            max_message_size: options.max_message_size,
        },
        construct_err: None,
    };
    Ok(BidiCall { request, options, stream })
}

/// The head of a response as it arrives: status and headers, or the error that
/// the transport gave.
pub open spec fn response_view(
    r: Result<(u16, http::HeaderMap), ConnectError>,
) -> Result<(u16, headers::Headers), error::ErrorView> {
    match r {
        Ok((status, h)) => Ok((status, headers::header_contents(h))),
        Err(e) => Err(e@),
    }
}

impl BidiStream {
    /// Checks that a message can be sent and puts it into its envelope. The
    /// message comes encoded, or with the error that encoding it gave.
    pub fn send(&self, message: Result<Vec<u8>, ConnectError>, deadline_passed: bool) -> (r: Result<
        Vec<u8>,
        ConnectError,
    >)
        ensures
            self@.sends(
                compression::outcome_of(message),
                deadline_passed,
                compression::outcome_of(r),
            ),
    {
        if deadline_passed {
            return Err(stream::client_deadline_error());
        }
        if !self.send_open {
            return Err(ConnectError::internal("send after close_send"));
        }
        call::encode_message(&self.encoder, message)
    }

    /// The error of sending on a stream that the server has closed.
    pub fn closed_by_server() -> (r: ConnectError)
        ensures
            r@ == error::plain_error(
                ErrorCode::Unavailable,
                "stream closed by server (call message() for error)"@,
            ),
    {
        ConnectError::unavailable("stream closed by server (call message() for error)")
    }

    /// Closes the sending side. Doing so again changes nothing.
    pub fn close_send(&mut self)
        ensures
            final(self)@ == (BidiView { send_open: false, ..old(self)@ }),
    {
        self.send_open = false;
    }

    /// Receives the next message.
    pub fn message(&mut self, deadline_passed: bool) -> (r: BidiStep)
        ensures
            old(self)@.can_step(deadline_passed, (final(self)@, r@)),
    {
        let ghost before = self@;
        proof {
            if let RecvView::Ready(s) = before.recv {
                assert(s.can_read(s.frame_trailers()));
                assert(before.can_read(s.frame_trailers()));
            } else {
                assert(before.can_read(None));
            }
        }
        if let Some(e) = &self.construct_err {
            return BidiStep::Failed(e.clone());
        }
        match &mut self.recv {
            RecvState::Pending => BidiStep::NeedResponse,
            RecvState::Ready(s) => {
                let ghost stream = s@;
                let step = s.message(deadline_passed);
                proof {
                    let read = choose|read: Option<headers::Headers>| #[trigger]
                        stream.can_read(read) && (s@, step@) == stream.stepped(
                            read,
                            deadline_passed,
                        );
                    assert(before.can_read(read));
                }
                BidiStep::Stream(step)
            },
            RecvState::Failed => BidiStep::Failed(
                ConnectError::internal("stream in failed state"),
            ),
        }
    }

    /// Takes in the head of the response, or the error that came in its place.
    /// Gives back the error response that has yet to be read and handed to
    /// [`BidiStream::on_failure`], if there is one.
    pub fn on_response(&mut self, response: Result<(u16, http::HeaderMap), ConnectError>) -> (r:
        Option<StreamErrorResponse>)
        requires
            old(self)@.recv is Pending,
        ensures
            ({
                let (next, error_response) = old(self)@.answered(response_view(response));
                &&& final(self)@ == next
                &&& (match r {
                    Some(e) => error_response == Some(e@),
                    None => error_response is None,
                })
            }),
    {
        match response {
            Err(e) => {
                self.recv = RecvState::Failed;
                self.construct_err = Some(e);
                None
            },
            Ok((status, headers)) => {
                let cfg = self.stream_config;
                match stream::make_server_stream(
                    status,
                    headers,
                    cfg.protocol,
                    cfg.compression,
                    cfg.codec_format,
                    cfg.max_message_size,
                ) {
                    StreamStart::Stream(s) => {
                        self.recv = RecvState::Ready(s);
                        None
                    },
                    StreamStart::Failed(e) => {
                        self.recv = RecvState::Failed;
                        self.construct_err = Some(e);
                        None
                    },
                    StreamStart::ErrorResponse(e) => {
                        self.recv = RecvState::Failed;
                        Some(e)
                    },
                }
            },
        }
    }

    /// Records why there is no response to read.
    pub fn on_failure(&mut self, e: ConnectError)
        requires
            old(self)@.construct_err is None,
        ensures
            final(self)@ == old(self)@.failed(e@),
    {
        self.recv = RecvState::Failed;
        self.construct_err = Some(e);
    }

    /// The stream of the response, once its head has arrived.
    pub fn stream_mut(&mut self) -> (r: Option<&mut ServerStream>)
        ensures
            match r {
                Some(s) => {
                    &&& old(self)@.recv == RecvView::Ready(s@)
                    &&& final(self)@ == (BidiView {
                        recv: RecvView::Ready(final(s)@),
                        ..old(self)@
                    })
                },
                None => !(old(self)@.recv is Ready) && final(self)@ == old(self)@,
            },
    {
        match &mut self.recv {
            RecvState::Ready(s) => Some(s),
            _ => None,
        }
    }

    /// The response headers, once they have arrived.
    #[must_use]
    pub fn headers(&self) -> (r: Option<&http::HeaderMap>)
        ensures
            match r {
                Some(h) => self@.recv matches RecvView::Ready(s) && s.headers
                    == headers::header_contents(*h),
                None => !(self@.recv is Ready),
            },
    {
        match &self.recv {
            RecvState::Ready(s) => Some(s.headers()),
            _ => None,
        }
    }

    /// The trailing metadata: there once the stream has ended, if any arrived.
    #[must_use]
    pub fn trailers(&self) -> (r: Option<&http::HeaderMap>)
        ensures
            match r {
                Some(t) => self@.recv matches RecvView::Ready(s) && (s.end matches Some(end)
                    && end.trailers == Some(headers::header_contents(*t))),
                None => self@.recv matches RecvView::Ready(s) ==> (s.end matches Some(end)
                    ==> end.trailers is None),
            },
    {
        match &self.recv {
            RecvState::Ready(s) => s.trailers(),
            _ => None,
        }
    }

    /// The error that ended the stream, or why there is no response to read.
    #[must_use]
    pub fn error(&self) -> (r: Option<&ConnectError>)
        ensures
            match r {
                Some(e) => match self@.recv {
                    RecvView::Ready(s) => s.end matches Some(end) && end.outcome == Err::<
                        (),
                        error::ErrorView,
                    >(e@),
                    _ => self@.construct_err == Some(e@),
                },
                None => match self@.recv {
                    RecvView::Ready(s) => s.end matches Some(end) ==> end.outcome is Ok,
                    _ => self@.construct_err is None,
                },
            },
    {
        match &self.recv {
            RecvState::Ready(s) => s.error(),
            _ => match &self.construct_err {
                Some(e) => Some(e),
                None => None,
            },
        }
    }
}

impl BidiView {
    /// A stream that failed before there was a response reports the same error
    /// on every call.
    pub proof fn failure_is_sticky(self, read: Option<headers::Headers>, deadline_passed: bool)
        requires
            self.construct_err is Some,
        ensures
            self.stepped(read, deadline_passed) == (self, BidiStepView::Failed(
                self.construct_err->Some_0,
            )),
    {
    }

    /// Once the response's stream has ended, every call reports its outcome.
    pub proof fn end_is_sticky(self, read: Option<headers::Headers>, deadline_passed: bool)
        requires
            self.construct_err is None,
            self.recv matches RecvView::Ready(s) && s.end is Some,
        ensures
            self.stepped(read, deadline_passed).0 == self,
            self.stepped(read, deadline_passed).1 == BidiStepView::Stream(
                StepView::Ended(self.recv->Ready_0.end->Some_0.outcome),
            ),
    {
        assert(self.stepped(read, deadline_passed).0 =~= self);
    }

    /// After sending was closed no message can be sent, whatever it is and
    /// whenever it is tried.
    pub proof fn no_send_after_close(
        self,
        message: Result<Seq<u8>, error::ErrorView>,
        deadline_passed: bool,
        r: Result<Seq<u8>, error::ErrorView>,
    )
        requires
            (BidiView { send_open: false, ..self }).sends(message, deadline_passed, r),
        ensures
            r is Err,
    {
    }
}

} // verus!
