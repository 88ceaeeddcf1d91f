use vstd::prelude::*;

verus! {

/// What can go wrong while a call is served.
#[derive(Debug)]
pub enum Error {
    /// The handler signalled a status of its own.
    GrpcMessage { grpc_status: i32, grpc_message: Vec<u8> },
    /// Malformed framing, wrong arity or bad headers.
    Protocol(Vec<u8>),
    /// No method is registered under the requested path.
    Unimplemented(Vec<u8>),
    /// Metadata that cannot be put on, or read from, the wire.
    InvalidMetadata(Vec<u8>),
    /// A fault inside a handler, with the text that was captured.
    Panic(Vec<u8>),
    /// The peer went away while the call was running.
    StreamClosed,
    /// Any other failure a handler reports, with its rendering.
    Other(Vec<u8>),
}

/// The mathematical value of an [`Error`].
pub enum ErrorView {
    GrpcMessage { grpc_status: int, grpc_message: Seq<u8> },
    Protocol(Seq<u8>),
    Unimplemented(Seq<u8>),
    InvalidMetadata(Seq<u8>),
    Panic(Seq<u8>),
    StreamClosed,
    Other(Seq<u8>),
}

impl View for Error {
    type V = ErrorView;

    open spec fn view(&self) -> ErrorView {
        match *self {
            Error::GrpcMessage { grpc_status, grpc_message } => ErrorView::GrpcMessage {
                grpc_status: grpc_status as int,
                grpc_message: grpc_message@,
            },
            Error::Protocol(m) => ErrorView::Protocol(m@),
            Error::Unimplemented(m) => ErrorView::Unimplemented(m@),
            Error::InvalidMetadata(m) => ErrorView::InvalidMetadata(m@),
            Error::Panic(m) => ErrorView::Panic(m@),
            Error::StreamClosed => ErrorView::StreamClosed,
            Error::Other(m) => ErrorView::Other(m@),
        }
    }
}

} // verus!
