//! The wire protocols, the message codecs, and the names and content types
//! that each of them uses.

use vstd::prelude::*;
use crate::error::ErrorCode;

verus! {

/// The wire protocol of a call.
#[derive(Debug, Clone, Copy, PartialEq, Eq, Structural)]
pub enum Protocol {
    Connect,
    Grpc,
    GrpcWeb,
}

/// The encoding of messages.
#[derive(Debug, Clone, Copy, PartialEq, Eq, Structural)]
pub enum CodecFormat {
    Proto,
    Json,
}

impl CodecFormat {
    /// The content type of a single message in the Connect protocol.
    pub open spec fn content_type_text(self) -> Seq<char> {
        match self {
            CodecFormat::Proto => "application/proto"@,
            CodecFormat::Json => "application/json"@,
        }
    }

    /// The codec's name in a query string.
    pub open spec fn name(self) -> Seq<char> {
        match self {
            CodecFormat::Proto => "proto"@,
            CodecFormat::Json => "json"@,
        }
    }

    /// The content type of a single message in the Connect protocol.
    pub fn content_type(self) -> (r: &'static str)
        ensures
            r@ == self.content_type_text(),
    {
        match self {
            CodecFormat::Proto => "application/proto",
            CodecFormat::Json => "application/json",
        }
    }

    /// The codec's name in a query string.
    pub fn as_str(self) -> (r: &'static str)
        ensures
            r@ == self.name(),
    {
        match self {
            CodecFormat::Proto => "proto",
            CodecFormat::Json => "json",
        }
    }
}

impl Protocol {
    /// The content type of messages in this protocol. Single messages and
    /// streams differ in the Connect protocol only.
    pub open spec fn content_type_text(self, format: CodecFormat, streaming: bool) -> Seq<char> {
        match (self, format) {
            (Protocol::Connect, CodecFormat::Proto) => if streaming {
                "application/connect+proto"@
            } else {
                "application/proto"@
            },
            (Protocol::Connect, CodecFormat::Json) => if streaming {
                "application/connect+json"@
            } else {
                "application/json"@
            },
            (Protocol::Grpc, CodecFormat::Proto) => "application/grpc+proto"@,
            (Protocol::Grpc, CodecFormat::Json) => "application/grpc+json"@,
            (Protocol::GrpcWeb, CodecFormat::Proto) => "application/grpc-web+proto"@,
            (Protocol::GrpcWeb, CodecFormat::Json) => "application/grpc-web+json"@,
        }
    }

    /// The header that names the compression of a stream's messages.
    pub open spec fn content_encoding_name(self) -> Seq<char> {
        match self {
            Protocol::Connect => "connect-content-encoding"@,
            _ => "grpc-encoding"@,
        }
    }

    /// The header that lists the compressions a stream's answer may use.
    pub open spec fn accept_encoding_name(self) -> Seq<char> {
        match self {
            Protocol::Connect => "connect-accept-encoding"@,
            _ => "grpc-accept-encoding"@,
        }
    }

    /// The header that carries the timeout.
    pub open spec fn timeout_name(self) -> Seq<char> {
        match self {
            Protocol::Connect => "connect-timeout-ms"@,
            _ => "grpc-timeout"@,
        }
    }

    /// The content type of messages in this protocol.
    pub fn response_content_type(self, format: CodecFormat, streaming: bool) -> (r: &'static str)
        ensures
            r@ == self.content_type_text(format, streaming),
    {
        match (self, format) {
            (Protocol::Connect, CodecFormat::Proto) => if streaming {
                "application/connect+proto"
            } else {
                "application/proto"
            },
            (Protocol::Connect, CodecFormat::Json) => if streaming {
                "application/connect+json"
            } else {
                "application/json"
            },
            (Protocol::Grpc, CodecFormat::Proto) => "application/grpc+proto",
            (Protocol::Grpc, CodecFormat::Json) => "application/grpc+json",
            (Protocol::GrpcWeb, CodecFormat::Proto) => "application/grpc-web+proto",
            (Protocol::GrpcWeb, CodecFormat::Json) => "application/grpc-web+json",
        }
    }

    /// The header that names the compression of a stream's messages.
    pub fn content_encoding_header(self) -> (r: &'static str)
        ensures
            r@ == self.content_encoding_name(),
    {
        match self {
            Protocol::Connect => "connect-content-encoding",
            _ => "grpc-encoding",
        }
    }

    /// The header that lists the compressions a stream's answer may use.
    pub fn accept_encoding_header(self) -> (r: &'static str)
        ensures
            r@ == self.accept_encoding_name(),
    {
        match self {
            Protocol::Connect => "connect-accept-encoding",
            _ => "grpc-accept-encoding",
        }
    }

    /// The header that carries the timeout.
    pub fn timeout_header(self) -> (r: &'static str)
        ensures
            r@ == self.timeout_name(),
    {
        match self {
            Protocol::Connect => "connect-timeout-ms",
            _ => "grpc-timeout",
        }
    }
}

/// The error code for an HTTP status. Only some statuses have a code of their
/// own; all others are `unknown`.
pub open spec fn code_of_status(status: u16) -> ErrorCode {
    if status == 400 {
        ErrorCode::Internal
    } else if status == 401 {
        ErrorCode::Unauthenticated
    } else if status == 403 {
        ErrorCode::PermissionDenied
    } else if status == 404 {
        ErrorCode::Unimplemented
    } else if status == 408 {
        ErrorCode::DeadlineExceeded
    } else if status == 429 || 502 <= status <= 504 {
        ErrorCode::Unavailable
    } else {
        ErrorCode::Unknown
    }
}

/// The error code for an HTTP status.
pub fn http_status_to_error_code(status: u16) -> (r: ErrorCode)
    ensures
        r == code_of_status(status),
{
    match status {
        400 => ErrorCode::Internal,
        401 => ErrorCode::Unauthenticated,
        403 => ErrorCode::PermissionDenied,
        404 => ErrorCode::Unimplemented,
        408 => ErrorCode::DeadlineExceeded,
        429 => ErrorCode::Unavailable,
        502 => ErrorCode::Unavailable,
        503 => ErrorCode::Unavailable,
        504 => ErrorCode::Unavailable,
        _ => ErrorCode::Unknown,
    }
}

/// Whether an HTTP status reports success.
pub open spec fn is_success_status(status: u16) -> bool {
    200 <= status < 300
}

/// Whether an HTTP status reports success.
pub fn is_success(status: u16) -> (r: bool)
    ensures
        r == is_success_status(status),
{
    200 <= status && status < 300
}

} // verus!
