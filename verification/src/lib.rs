//! The client side of ConnectRPC: configuration, request framing, and the
//! reading and classification of unary and streaming responses for the Connect,
//! gRPC and gRPC-Web protocols.
//!
//! The library does no I/O. A call is built as a complete HTTP request; what
//! comes back is handed in piece by piece, and the state machines of the
//! response types say what to do next and what the call came to.

pub mod bidi;
pub mod body;
pub mod call;
pub mod client_stream;
pub mod compression;
pub mod config;
pub mod encoding;
pub mod end_stream;
pub mod envelope;
pub mod error;
pub mod grpc;
pub mod grpc_status;
pub mod grpc_unary;
pub mod headers;
pub mod laws;
pub mod metadata;
pub mod protocol;
pub mod request;
pub mod response;
pub mod stream;
pub mod text;
pub mod timeout;
pub mod transport;
pub mod unary;
pub mod uri;
