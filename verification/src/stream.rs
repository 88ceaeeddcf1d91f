use vstd::prelude::*;
use crate::error::{Error, ErrorView};
use crate::metadata::Metadata;

verus! {

/// The view of an optional error.
pub open spec fn error_view(e: Option<Error>) -> Option<ErrorView> {
    match e {
        Some(e) => Some(e@),
        None => None,
    }
}

/// The context of one call, as a handler receives it.
pub struct RequestOptions {
    pub metadata: Metadata,
}

/// The requests of one call in the order of their arrival, and the error
/// that ended the input, if one did.
pub struct StreamingRequest<T> {
    pub items: Vec<T>,
    pub error: Option<Error>,
}

impl<T> StreamingRequest<T> {
    /// A request stream that ended cleanly after `items`.
    pub fn new(items: Vec<T>) -> (r: Self)
        ensures
            r.items == items,
            r.error is None,
    {
        StreamingRequest { items, error: None }
    }
}


/// A response that is one message at most: the initial metadata, the
/// message and the trailing metadata, or the error that took their place.
pub struct SingleResponse<T> {
    pub result: Result<(Metadata, T, Metadata), Error>,
}

/// A response as a handler gives it.
pub enum StreamingResponse<T> {
    /// The call failed before it produced initial metadata.
    Failed(Error),
    /// Initial metadata, then the messages in order, then either trailing
    /// metadata or the error that cut the messages short.
    Opened { initial: Metadata, items: Vec<T>, end: Result<Metadata, Error> },
}

/// Whether `r` is `s` as a stream: the same metadata around the one message,
/// or the same error.
pub open spec fn lifts<T>(s: SingleResponse<T>, r: StreamingResponse<T>) -> bool {
    match s.result {
        Ok((initial, item, trailing)) => r matches StreamingResponse::Opened {
            initial: i,
            items,
            end: Ok(t),
        } && i == initial && items@ == seq![item] && t == trailing,
        Err(e) => r == StreamingResponse::<T>::Failed(e),
    }
}

impl<T> SingleResponse<T> {
    /// A response of one message, without metadata.
    pub fn completed(item: T) -> (r: Self)
        ensures
            r.result matches Ok((initial, x, trailing)) && x == item && initial@.len() == 0
                && trailing@.len() == 0,
    {
        SingleResponse { result: Ok((Metadata::new(), item, Metadata::new())) }
    }

    /// A response that is an error.
    pub fn err(e: Error) -> (r: Self)
        ensures
            r.result == Err::<(Metadata, T, Metadata), Error>(e),
    {
        SingleResponse { result: Err(e) }
    }

    /// The same response as a stream.
    pub fn into_stream(self) -> (r: StreamingResponse<T>)
        ensures
            lifts(self, r),
    {
        match self.result {
            Ok((initial, item, trailing)) => {
                let mut items: Vec<T> = Vec::new();
                items.push(item);
                assert(items@ =~= seq![item]);
                StreamingResponse::Opened { initial, items, end: Ok(trailing) }
            },
            Err(e) => StreamingResponse::Failed(e),
        }
    }
}

impl<T> StreamingResponse<T> {
    /// A response that is an error.
    pub fn err(e: Error) -> (r: Self)
        ensures
            r == StreamingResponse::<T>::Failed(e),
    {
        StreamingResponse::Failed(e)
    }

    /// A response of `items`, without metadata.
    pub fn no_metadata(items: Vec<T>) -> (r: Self)
        ensures
            r matches StreamingResponse::Opened { initial, items: i, end: Ok(t) } && i == items
                && initial@.len() == 0 && t@.len() == 0,
    {
        StreamingResponse::Opened { initial: Metadata::new(), items, end: Ok(Metadata::new()) }
    }

    /// A response without messages or metadata.
    pub fn empty() -> (r: Self)
        ensures
            r matches StreamingResponse::Opened { initial, items, end: Ok(t) } && items@.len() == 0
                && initial@.len() == 0 && t@.len() == 0,
    {
        StreamingResponse::Opened { initial: Metadata::new(), items: Vec::new(), end: Ok(Metadata::new()) }
    }
}

} // verus!
