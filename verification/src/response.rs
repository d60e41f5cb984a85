//! Which state machine reads the response of a call.

use vstd::prelude::*;
use crate::client_stream::{parse_connect_client_stream_response, ClientStreamStart};
use crate::client_stream;
use crate::config::{CallOptions, ClientConfig};
use crate::config;
use crate::error::ConnectError;
use crate::error;
use crate::grpc_unary::{parse_grpc_unary_response, GrpcUnaryResponse};
use crate::grpc_unary;
use crate::headers;
use crate::metadata;
use crate::protocol::Protocol;
use crate::unary::{parse_connect_unary_response, ConnectUnaryResponse};
use crate::unary;

verus! {

/// The reader of the response of a unary call.
#[derive(Debug)]
pub enum UnaryReader {
    /// A Connect response: its body is collected as a whole.
    Connect(ConnectUnaryResponse),
    /// A gRPC or gRPC-Web response: its body is read piece by piece.
    Grpc(GrpcUnaryResponse),
}

/// The reader of a unary call in mathematical terms.
pub enum UnaryReaderView {
    Connect(unary::ConnectHeadView),
    Grpc(grpc_unary::GrpcView),
}

impl View for UnaryReader {
    type V = UnaryReaderView;

    open spec fn view(&self) -> UnaryReaderView {
        match self {
            UnaryReader::Connect(r) => UnaryReaderView::Connect(r@),
            UnaryReader::Grpc(r) => UnaryReaderView::Grpc(r@),
        }
    }
}

/// The outcome of reading the head of a unary response, in mathematical terms.
pub open spec fn unary_outcome(r: Result<UnaryReader, ConnectError>) -> Result<
    UnaryReaderView,
    error::ErrorView,
> {
    match r {
        Ok(reader) => Ok(reader@),
        Err(e) => Err(e@),
    }
}

/// What the head of a unary response gives: the reader for the protocol of the
/// client, or the error that the head already is.
pub open spec fn unary_reader(
    status: u16,
    h: headers::Headers,
    config: config::ConfigView,
    options: config::OptionsView,
) -> Result<UnaryReaderView, error::ErrorView> {
    match config.protocol {
        Protocol::Connect => match unary::connect_head(status, h, config, options) {
            Ok(r) => Ok(UnaryReaderView::Connect(r)),
            Err(e) => Err(e),
        },
        Protocol::Grpc | Protocol::GrpcWeb => match grpc_unary::grpc_head(
            status,
            h,
            config,
            options,
        ) {
            Ok(r) => Ok(UnaryReaderView::Grpc(r)),
            Err(e) => Err(e),
        },
    }
}

/// Reads the head of a unary response.
pub fn read_unary_response(
    status: u16,
    headers: http::HeaderMap,
    config: &ClientConfig,
    options: &CallOptions,
) -> (r: Result<UnaryReader, ConnectError>)
    requires
        config@.protocol == Protocol::Connect ==> headers::has_room(
            metadata::trailer_part(headers::header_contents(headers)),
        ),
    ensures
        unary_outcome(r) == unary_reader(
            status,
            headers::header_contents(headers),
            config@,
            options@,
        ),
{
    match config.protocol() {
        Protocol::Connect => match parse_connect_unary_response(status, &headers, config, options) {
            Ok(r) => Ok(UnaryReader::Connect(r)),
            Err(e) => Err(e),
        },
        Protocol::Grpc | Protocol::GrpcWeb => {
            match parse_grpc_unary_response(status, headers, config, options) {
                Ok(r) => Ok(UnaryReader::Grpc(r)),
                Err(e) => Err(e),
            }
        },
    }
}

/// Tells whether the head of a unary response can be read: in the Connect
/// protocol, whether its trailers are few enough for a header map.
pub fn check_unary_head(headers: &http::HeaderMap, config: &ClientConfig) -> (r: bool)
    ensures
        r == (config@.protocol == Protocol::Connect ==> headers::has_room(
            metadata::trailer_part(headers::header_contents(*headers)),
        )),
{
    match config.protocol() {
        Protocol::Connect => metadata::check_trailers(headers),
        Protocol::Grpc | Protocol::GrpcWeb => true,
    }
}

/// The reader of the response of a client-streaming call.
#[derive(Debug)]
pub enum ClientStreamReader {
    /// A Connect response: envelopes, or an error response.
    Connect(ClientStreamStart),
    /// A gRPC or gRPC-Web response, which is read like that of a unary call.
    Grpc(GrpcUnaryResponse),
}

/// The reader of a client-streaming call in mathematical terms.
pub enum ClientStreamReaderView {
    Connect(client_stream::ClientStartView),
    Grpc(grpc_unary::GrpcView),
}

impl View for ClientStreamReader {
    type V = ClientStreamReaderView;

    open spec fn view(&self) -> ClientStreamReaderView {
        match self {
            ClientStreamReader::Connect(r) => ClientStreamReaderView::Connect(r@),
            ClientStreamReader::Grpc(r) => ClientStreamReaderView::Grpc(r@),
        }
    }
}

/// The outcome of reading the head of a response to a client-streaming call, in
/// mathematical terms.
pub open spec fn client_stream_outcome(r: Result<ClientStreamReader, ConnectError>) -> Result<
    ClientStreamReaderView,
    error::ErrorView,
> {
    match r {
        Ok(reader) => Ok(reader@),
        Err(e) => Err(e@),
    }
}

/// What the head of a response to a client-streaming call gives: the reader for
/// the protocol of the client, or the error that the head already is.
pub open spec fn client_stream_reader(
    status: u16,
    h: headers::Headers,
    config: config::ConfigView,
    options: config::OptionsView,
) -> Result<ClientStreamReaderView, error::ErrorView> {
    match config.protocol {
        Protocol::Connect => Ok(
            ClientStreamReaderView::Connect(
                client_stream::client_stream_start(status, h, config, options),
            ),
        ),
        Protocol::Grpc | Protocol::GrpcWeb => match grpc_unary::grpc_head(
            status,
            h,
            config,
            options,
        ) {
            Ok(r) => Ok(ClientStreamReaderView::Grpc(r)),
            Err(e) => Err(e),
        },
    }
}

/// Reads the head of a response to a client-streaming call.
pub fn read_client_stream_response(
    status: u16,
    headers: http::HeaderMap,
    config: &ClientConfig,
    options: &CallOptions,
) -> (r: Result<ClientStreamReader, ConnectError>)
    ensures
        client_stream_outcome(r) == client_stream_reader(
            status,
            headers::header_contents(headers),
            config@,
            options@,
        ),
{
    match config.protocol() {
        Protocol::Connect => Ok(
            ClientStreamReader::Connect(
                parse_connect_client_stream_response(status, headers, config, options),
            ),
        ),
        Protocol::Grpc | Protocol::GrpcWeb => {
            match parse_grpc_unary_response(status, headers, config, options) {
                Ok(r) => Ok(ClientStreamReader::Grpc(r)),
                Err(e) => Err(e),
            }
        },
    }
}

} // verus!
