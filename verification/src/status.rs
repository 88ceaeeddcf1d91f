use vstd::prelude::*;
use crate::error::{Error, ErrorView};
use crate::text::{copy_range, literal, text};

verus! {

pub const STATUS_OK: i32 = 0;

pub const STATUS_UNKNOWN: i32 = 2;

pub const STATUS_UNIMPLEMENTED: i32 = 12;

pub const STATUS_INTERNAL: i32 = 13;

/// The status code under which an error goes on the wire.
pub open spec fn status_of(e: ErrorView) -> int {
    match e {
        ErrorView::GrpcMessage { grpc_status, grpc_message } => grpc_status,
        ErrorView::Protocol(_) => 13,
        ErrorView::Unimplemented(_) => 12,
        ErrorView::InvalidMetadata(_) => 13,
        ErrorView::Panic(_) => 13,
        ErrorView::StreamClosed => 2,
        ErrorView::Other(_) => 2,
    }
}

/// The message under which an error goes on the wire.
pub open spec fn message_of(e: ErrorView) -> Seq<u8> {
    match e {
        ErrorView::GrpcMessage { grpc_status, grpc_message } => grpc_message,
        ErrorView::Protocol(m) => m,
        ErrorView::Unimplemented(m) => m,
        ErrorView::InvalidMetadata(m) => m,
        ErrorView::Panic(m) => m,
        ErrorView::StreamClosed => text("stream closed"),
        ErrorView::Other(m) => m,
    }
}

/// The decimal digits of `n`, without leading zeros.
pub open spec fn digits(n: nat) -> Seq<u8>
    decreases n,
{
    if n < 10 {
        seq![(48 + n) as u8]
    } else {
        digits(n / 10).push((48 + n % 10) as u8)
    }
}

/// `n` in decimal, with a minus sign where it is negative.
pub open spec fn decimal(n: int) -> Seq<u8> {
    if n < 0 {
        seq![45u8] + digits((-n) as nat)
    } else {
        digits(n as nat)
    }
}

fn push_digits(out: &mut Vec<u8>, n: u64)
    ensures
        final(out)@ == old(out)@ + digits(n as nat),
    decreases n,
{
    if n >= 10 {
        push_digits(out, n / 10);
    }
    out.push((48 + n % 10) as u8);
    assert(out@ =~= old(out)@ + digits(n as nat));
}

/// A status code as it is written in a header.
pub fn status_text(code: i32) -> (r: Vec<u8>)
    ensures
        r@ == decimal(code as int),
{
    let mut out: Vec<u8> = Vec::new();
    let wide: i64 = code as i64;
    if wide < 0 {
        out.push(45u8);
        push_digits(&mut out, (-wide) as u64);
        assert(out@ =~= decimal(code as int));
    } else {
        push_digits(&mut out, wide as u64);
        assert(out@ =~= decimal(code as int));
    }
    out
}

/// The status code of an error.
pub fn grpc_status(e: &Error) -> (r: i32)
    ensures
        r == status_of(e@),
{
    match e {
        Error::GrpcMessage { grpc_status, grpc_message } => *grpc_status,
        Error::Protocol(_) => STATUS_INTERNAL,
        Error::Unimplemented(_) => STATUS_UNIMPLEMENTED,
        Error::InvalidMetadata(_) => STATUS_INTERNAL,
        Error::Panic(_) => STATUS_INTERNAL,
        Error::StreamClosed => STATUS_UNKNOWN,
        Error::Other(_) => STATUS_UNKNOWN,
    }
}

/// The message of an error.
pub fn grpc_message(e: &Error) -> (r: Vec<u8>)
    ensures
        r@ == message_of(e@),
{
    match e {
        Error::GrpcMessage { grpc_status, grpc_message } => duplicate(grpc_message),
        Error::Protocol(m) => duplicate(m),
        Error::Unimplemented(m) => duplicate(m),
        Error::InvalidMetadata(m) => duplicate(m),
        Error::Panic(m) => duplicate(m),
        Error::StreamClosed => literal("stream closed"),
        Error::Other(m) => duplicate(m),
    }
}

/// A copy of `v`.
pub fn duplicate(v: &Vec<u8>) -> (r: Vec<u8>)
    ensures
        r@ == v@,
{
    let r = copy_range(v.as_slice(), 0, v.len());
    assert(v@.subrange(0, v@.len() as int) =~= v@);
    r
}

} // verus!
