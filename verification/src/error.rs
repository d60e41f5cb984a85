//! Error codes and the error type of every RPC.

use vstd::prelude::*;
use crate::headers;
use crate::text;

verus! {

/// The status codes of a failed RPC, shared by all protocols.
#[derive(Debug, Clone, Copy, PartialEq, Eq, Structural)]
pub enum ErrorCode {
    Canceled,
    Unknown,
    InvalidArgument,
    DeadlineExceeded,
    NotFound,
    AlreadyExists,
    PermissionDenied,
    ResourceExhausted,
    FailedPrecondition,
    Aborted,
    OutOfRange,
    Unimplemented,
    Internal,
    Unavailable,
    DataLoss,
    Unauthenticated,
}

impl ErrorCode {
    /// The code's name on the wire of the Connect protocol.
    pub open spec fn name(self) -> Seq<char> {
        match self {
            ErrorCode::Canceled => "canceled"@,
            ErrorCode::Unknown => "unknown"@,
            ErrorCode::InvalidArgument => "invalid_argument"@,
            ErrorCode::DeadlineExceeded => "deadline_exceeded"@,
            ErrorCode::NotFound => "not_found"@,
            ErrorCode::AlreadyExists => "already_exists"@,
            ErrorCode::PermissionDenied => "permission_denied"@,
            ErrorCode::ResourceExhausted => "resource_exhausted"@,
            ErrorCode::FailedPrecondition => "failed_precondition"@,
            ErrorCode::Aborted => "aborted"@,
            ErrorCode::OutOfRange => "out_of_range"@,
            ErrorCode::Unimplemented => "unimplemented"@,
            ErrorCode::Internal => "internal"@,
            ErrorCode::Unavailable => "unavailable"@,
            ErrorCode::DataLoss => "data_loss"@,
            ErrorCode::Unauthenticated => "unauthenticated"@,
        }
    }

    /// The code's number on the wire of gRPC.
    pub open spec fn number(self) -> u32 {
        match self {
            ErrorCode::Canceled => 1,
            ErrorCode::Unknown => 2,
            ErrorCode::InvalidArgument => 3,
            ErrorCode::DeadlineExceeded => 4,
            ErrorCode::NotFound => 5,
            ErrorCode::AlreadyExists => 6,
            ErrorCode::PermissionDenied => 7,
            ErrorCode::ResourceExhausted => 8,
            ErrorCode::FailedPrecondition => 9,
            ErrorCode::Aborted => 10,
            ErrorCode::OutOfRange => 11,
            ErrorCode::Unimplemented => 12,
            ErrorCode::Internal => 13,
            ErrorCode::Unavailable => 14,
            ErrorCode::DataLoss => 15,
            ErrorCode::Unauthenticated => 16,
        }
    }

    /// The code that a name stands for, if any.
    pub open spec fn named(s: Seq<char>) -> Option<ErrorCode> {
        if exists|c: ErrorCode| #[trigger] c.name() == s {
            Some(choose|c: ErrorCode| #[trigger] c.name() == s)
        } else {
            None
        }
    }

    /// The code that a gRPC status number stands for, if any.
    pub open spec fn numbered(n: u32) -> Option<ErrorCode> {
        if exists|c: ErrorCode| #[trigger] c.number() == n {
            Some(choose|c: ErrorCode| #[trigger] c.number() == n)
        } else {
            None
        }
    }

    /// The code's name on the wire of the Connect protocol.
    pub fn as_str(&self) -> (r: &'static str)
        ensures
            r@ == self.name(),
    {
        match self {
            ErrorCode::Canceled => "canceled",
            ErrorCode::Unknown => "unknown",
            ErrorCode::InvalidArgument => "invalid_argument",
            ErrorCode::DeadlineExceeded => "deadline_exceeded",
            ErrorCode::NotFound => "not_found",
            ErrorCode::AlreadyExists => "already_exists",
            ErrorCode::PermissionDenied => "permission_denied",
            ErrorCode::ResourceExhausted => "resource_exhausted",
            ErrorCode::FailedPrecondition => "failed_precondition",
            ErrorCode::Aborted => "aborted",
            ErrorCode::OutOfRange => "out_of_range",
            ErrorCode::Unimplemented => "unimplemented",
            ErrorCode::Internal => "internal",
            ErrorCode::Unavailable => "unavailable",
            ErrorCode::DataLoss => "data_loss",
            ErrorCode::Unauthenticated => "unauthenticated",
        }
    }

    /// Different codes have different names.
    pub proof fn names_are_distinct(a: ErrorCode, b: ErrorCode)
        ensures
            a.name() == b.name() ==> a == b,
    {
        reveal_strlit("canceled");
        reveal_strlit("unknown");
        reveal_strlit("invalid_argument");
        reveal_strlit("deadline_exceeded");
        reveal_strlit("not_found");
        reveal_strlit("already_exists");
        reveal_strlit("permission_denied");
        reveal_strlit("resource_exhausted");
        reveal_strlit("failed_precondition");
        reveal_strlit("aborted");
        reveal_strlit("out_of_range");
        reveal_strlit("unimplemented");
        reveal_strlit("internal");
        reveal_strlit("unavailable");
        reveal_strlit("data_loss");
        reveal_strlit("unauthenticated");
        if a.name() == b.name() {
            assert(a.name().len() == b.name().len());
            assert(a.name()[0] == b.name()[0]);
            assert(a.name()[2] == b.name()[2]);
        }
    }

    /// A code's name stands for the code.
    pub proof fn named_inverts_name(c: ErrorCode)
        ensures
            ErrorCode::named(c.name()) == Some(c),
    {
        let d = choose|d: ErrorCode| #[trigger] d.name() == c.name();
        ErrorCode::names_are_distinct(c, d);
    }

    /// A code's number stands for the code.
    pub proof fn numbered_inverts_number(c: ErrorCode)
        ensures
            ErrorCode::numbered(c.number()) == Some(c),
    {
    }

    /// The code with the given name.
    pub fn parse(s: &str) -> (r: Option<ErrorCode>)
        ensures
            r == ErrorCode::named(s@),
    {
        let mut n: u32 = 1;
        while n <= 16
            invariant
                1 <= n <= 17,
                forall|c: ErrorCode| c.number() < n ==> #[trigger] c.name() != s@,
            decreases 17 - n,
        {
            if let Some(c) = ErrorCode::from_grpc_code(n) {
                if text::text_equal(c.as_str(), s) {
                    proof {
                        ErrorCode::named_inverts_name(c);
                    }
                    return Some(c);
                }
            }
            assert forall|c: ErrorCode| c.number() < n + 1 implies #[trigger] c.name() != s@ by {
                if c.number() == n {
                    ErrorCode::numbered_inverts_number(c);
                }
            }
            n += 1;
        }
        assert forall|c: ErrorCode| #[trigger] c.name() != s@ by {
            assert(c.number() < 17);
        }
        None
    }

    /// The code with the given gRPC status number.
    pub fn from_grpc_code(n: u32) -> (r: Option<ErrorCode>)
        ensures
            r == ErrorCode::numbered(n),
    {
        let r = match n {
            1 => Some(ErrorCode::Canceled),
            2 => Some(ErrorCode::Unknown),
            3 => Some(ErrorCode::InvalidArgument),
            4 => Some(ErrorCode::DeadlineExceeded),
            5 => Some(ErrorCode::NotFound),
            6 => Some(ErrorCode::AlreadyExists),
            7 => Some(ErrorCode::PermissionDenied),
            8 => Some(ErrorCode::ResourceExhausted),
            9 => Some(ErrorCode::FailedPrecondition),
            10 => Some(ErrorCode::Aborted),
            11 => Some(ErrorCode::OutOfRange),
            12 => Some(ErrorCode::Unimplemented),
            13 => Some(ErrorCode::Internal),
            14 => Some(ErrorCode::Unavailable),
            15 => Some(ErrorCode::DataLoss),
            16 => Some(ErrorCode::Unauthenticated),
            _ => None,
        };
        proof {
            match r {
                Some(c) => {
                    assert(c.number() == n);
                },
                None => {
                    assert forall|c: ErrorCode| #[trigger] c.number() != n by {}
                },
            }
        }
        r
    }
}

/// The text in an optional string.
pub open spec fn text_of(s: Option<String>) -> Option<Seq<char>> {
    match s {
        Some(t) => Some(t@),
        None => None,
    }
}

/// Copies an optional string.
pub fn copy_text(s: &Option<String>) -> (r: Option<String>)
    ensures
        text_of(r) == text_of(*s),
{
    match s {
        Some(t) => Some(t.clone()),
        None => None,
    }
}

/// One detail message attached to an error: its type, its payload in base64,
/// and a JSON rendering for people.
#[derive(Debug)]
pub struct ErrorDetail {
    pub type_url: String,
    pub value: Option<String>,
    pub debug: Option<String>,
}

/// An error detail in mathematical terms.
#[verifier::ext_equal]
pub struct DetailView {
    pub type_url: Seq<char>,
    pub value: Option<Seq<char>>,
    pub debug: Option<Seq<char>>,
}

impl View for ErrorDetail {
    type V = DetailView;

    open spec fn view(&self) -> DetailView {
        DetailView {
            type_url: self.type_url@,
            value: text_of(self.value),
            debug: text_of(self.debug),
        }
    }
}

impl Clone for ErrorDetail {
    fn clone(&self) -> (r: Self)
        ensures
            r@ == self@,
    {
        ErrorDetail {
            type_url: self.type_url.clone(),
            value: copy_text(&self.value),
            debug: copy_text(&self.debug),
        }
    }
}

/// The views of a sequence of details.
pub open spec fn detail_views(d: Seq<ErrorDetail>) -> Seq<DetailView> {
    d.map_values(|x: ErrorDetail| x@)
}

/// Copies a list of details.
pub fn copy_details(d: &Vec<ErrorDetail>) -> (r: Vec<ErrorDetail>)
    ensures
        detail_views(r@) == detail_views(d@),
{
    let mut out: Vec<ErrorDetail> = Vec::new();
    let mut i: usize = 0;
    while i < d.len()
        invariant
            i <= d.len(),
            out@.len() == i,
            forall|k: int| 0 <= k < i ==> (#[trigger] out@[k])@ == d@[k]@,
        decreases d.len() - i,
    {
        out.push(d[i].clone());
        i += 1;
    }
    assert(detail_views(out@) =~= detail_views(d@));
    out
}

/// The error of a failed RPC, with the metadata that came with it.
#[derive(Debug)]
pub struct ConnectError {
    pub code: ErrorCode,
    pub message: Option<String>,
    pub details: Vec<ErrorDetail>,
    pub response_headers: http::HeaderMap,
    pub trailers: http::HeaderMap,
}

/// An error in mathematical terms.
#[verifier::ext_equal]
pub struct ErrorView {
    pub code: ErrorCode,
    pub message: Option<Seq<char>>,
    pub details: Seq<DetailView>,
    pub response_headers: headers::Headers,
    pub trailers: headers::Headers,
}

/// An error with a code and a message and nothing else.
pub open spec fn plain_error(code: ErrorCode, message: Seq<char>) -> ErrorView {
    ErrorView {
        code,
        message: Some(message),
        details: Seq::empty(),
        response_headers: headers::no_headers(),
        trailers: headers::no_headers(),
    }
}

impl ErrorView {
    /// The same error with these response headers.
    pub open spec fn with_response_headers(self, h: headers::Headers) -> ErrorView {
        ErrorView { response_headers: h, ..self }
    }

    /// The same error with these trailers.
    pub open spec fn with_trailers(self, h: headers::Headers) -> ErrorView {
        ErrorView { trailers: h, ..self }
    }

    /// The same error with these details.
    pub open spec fn with_details(self, details: Seq<DetailView>) -> ErrorView {
        ErrorView { details, ..self }
    }

    /// The same error with another code.
    pub open spec fn with_code(self, code: ErrorCode) -> ErrorView {
        ErrorView { code, ..self }
    }

    /// The error as one line of text.
    pub open spec fn display(self) -> Seq<char> {
        match self.message {
            Some(m) => self.code.name() + ": "@ + m,
            None => self.code.name(),
        }
    }
}

impl View for ConnectError {
    type V = ErrorView;

    open spec fn view(&self) -> ErrorView {
        ErrorView {
            code: self.code,
            message: text_of(self.message),
            details: detail_views(self.details@),
            response_headers: headers::header_contents(self.response_headers),
            trailers: headers::header_contents(self.trailers),
        }
    }
}

impl Clone for ConnectError {
    fn clone(&self) -> (r: Self)
        ensures
            r@ == self@,
    {
        ConnectError {
            code: self.code,
            message: copy_text(&self.message),
            details: copy_details(&self.details),
            response_headers: headers::copy_headers(&self.response_headers),
            trailers: headers::copy_headers(&self.trailers),
        }
    }
}

impl ConnectError {
    /// An error with a code and a message.
    pub fn new(code: ErrorCode, message: &str) -> (r: Self)
        ensures
            r@ == plain_error(code, message@),
    {
        let r = ConnectError {
            code,
            message: Some(message.to_owned()),
            details: Vec::new(),
            response_headers: headers::new_headers(),
            trailers: headers::new_headers(),
        };
        assert(r@.details =~= Seq::empty());
        r
    }

    /// An `internal` error.
    pub fn internal(message: &str) -> (r: Self)
        ensures
            r@ == plain_error(ErrorCode::Internal, message@),
    {
        ConnectError::new(ErrorCode::Internal, message)
    }

    /// An `invalid_argument` error.
    pub fn invalid_argument(message: &str) -> (r: Self)
        ensures
            r@ == plain_error(ErrorCode::InvalidArgument, message@),
    {
        ConnectError::new(ErrorCode::InvalidArgument, message)
    }

    /// An `unimplemented` error.
    pub fn unimplemented(message: &str) -> (r: Self)
        ensures
            r@ == plain_error(ErrorCode::Unimplemented, message@),
    {
        ConnectError::new(ErrorCode::Unimplemented, message)
    }

    /// An `unavailable` error.
    pub fn unavailable(message: &str) -> (r: Self)
        ensures
            r@ == plain_error(ErrorCode::Unavailable, message@),
    {
        ConnectError::new(ErrorCode::Unavailable, message)
    }

    /// A `deadline_exceeded` error.
    pub fn deadline_exceeded(message: &str) -> (r: Self)
        ensures
            r@ == plain_error(ErrorCode::DeadlineExceeded, message@),
    {
        ConnectError::new(ErrorCode::DeadlineExceeded, message)
    }

    /// A `resource_exhausted` error.
    pub fn resource_exhausted(message: &str) -> (r: Self)
        ensures
            r@ == plain_error(ErrorCode::ResourceExhausted, message@),
    {
        ConnectError::new(ErrorCode::ResourceExhausted, message)
    }

    /// The headers of the response that carried the error.
    pub fn response_headers(&self) -> (r: &http::HeaderMap)
        ensures
            headers::header_contents(*r) == self@.response_headers,
    {
        &self.response_headers
    }

    /// The trailing metadata that came with the error.
    pub fn trailers(&self) -> (r: &http::HeaderMap)
        ensures
            headers::header_contents(*r) == self@.trailers,
    {
        &self.trailers
    }

    /// Sets the headers of the response that carried the error.
    pub fn set_response_headers(&mut self, headers: http::HeaderMap)
        ensures
            final(self)@ == old(self)@.with_response_headers(headers::header_contents(headers)),
    {
        self.response_headers = headers;
    }

    /// Sets the trailing metadata that came with the error.
    pub fn set_trailers(&mut self, trailers: http::HeaderMap)
        ensures
            final(self)@ == old(self)@.with_trailers(headers::header_contents(trailers)),
    {
        self.trailers = trailers;
    }

    /// Sets the details of the error.
    pub fn set_details(&mut self, details: Vec<ErrorDetail>)
        ensures
            final(self)@ == old(self)@.with_details(detail_views(details@)),
    {
        self.details = details;
    }

    /// The error as one line of text: the code's name and, after a colon, the
    /// message.
    pub fn to_string(&self) -> (r: String)
        ensures
            r@ == self@.display(),
    {
        let mut s = String::new();
        s.push_str(self.code.as_str());
        match &self.message {
            Some(m) => {
                s.push_str(": ");
                s.push_str(m.as_str());
                assert(s@ =~= self@.display());
            },
            None => {
                assert(s@ =~= self@.display());
            },
        }
        s
    }
}

/// Remaps the codes of decompression errors for payloads that came from the
/// server: the fault then lies with the server or an intermediary, not with
/// the caller. An unknown encoding, `unimplemented`, becomes `internal`: the
/// client never advertised it. A malformed payload, `invalid_argument`,
/// becomes `data_loss`. All else stays as it is.
pub open spec fn remapped(e: ErrorView) -> ErrorView {
    match e.code {
        ErrorCode::Unimplemented => e.with_code(ErrorCode::Internal),
        ErrorCode::InvalidArgument => e.with_code(ErrorCode::DataLoss),
        _ => e,
    }
}

/// Remaps the code of an error from decompressing what the server sent.
pub fn map_response_decompression_error(e: ConnectError) -> (r: ConnectError)
    ensures
        r@ == remapped(e@),
{
    let mut e = e;
    match e.code {
        ErrorCode::Unimplemented => e.code = ErrorCode::Internal,
        ErrorCode::InvalidArgument => e.code = ErrorCode::DataLoss,
        _ => {},
    }
    e
}

/// Remapping changes the code of two kinds of errors and nothing else: an error
/// with any other code stays as it is.
pub proof fn remapping_changes_two_codes(e: ErrorView)
    ensures
        remapped(e) == e.with_code(remapped(e).code),
        e.code == ErrorCode::Unimplemented ==> remapped(e).code == ErrorCode::Internal,
        e.code == ErrorCode::InvalidArgument ==> remapped(e).code == ErrorCode::DataLoss,
        e.code != ErrorCode::Unimplemented && e.code != ErrorCode::InvalidArgument ==> remapped(e)
            == e,
{
}

} // verus!
