use vstd::prelude::*;
use crate::error::{Error, ErrorView};
use crate::status::duplicate;
use crate::stream::{lifts, RequestOptions, SingleResponse, StreamingRequest, StreamingResponse};
use crate::text::{literal, text};

verus! {

/// How many messages each side of a method sends.
#[derive(Clone, Copy, Debug, PartialEq, Eq, Structural)]
pub enum GrpcStreaming {
    Unary,
    ClientStreaming,
    ServerStreaming,
    Bidi,
}

/// Turns the messages of one type into bytes and back.
pub trait Marshaller<M> {
    /// Whether reading `bytes` may give `r`.
    spec fn reads(&self, bytes: Seq<u8>, r: Result<M, Error>) -> bool;

    /// Whether writing `m` may give `r`.
    spec fn writes(&self, m: M, r: Result<Vec<u8>, Error>) -> bool;

    fn read(&self, bytes: &[u8]) -> (r: Result<M, Error>)
        ensures
            self.reads(bytes@, r),
    ;

    fn write(&self, m: &M) -> (r: Result<Vec<u8>, Error>)
        ensures
            self.writes(*m, r),
    ;
}

/// The marshaller of messages that are bytes already.
pub struct MarshallerBytes;

impl Marshaller<Vec<u8>> for MarshallerBytes {
    open spec fn reads(&self, bytes: Seq<u8>, r: Result<Vec<u8>, Error>) -> bool {
        r matches Ok(v) && v@ == bytes
    }

    open spec fn writes(&self, m: Vec<u8>, r: Result<Vec<u8>, Error>) -> bool {
        r matches Ok(v) && v@ == m@
    }

    fn read(&self, bytes: &[u8]) -> (r: Result<Vec<u8>, Error>) {
        let v = crate::text::copy_range(bytes, 0, bytes.len());
        assert(bytes@.subrange(0, bytes@.len() as int) =~= bytes@);
        Ok(v)
    }

    fn write(&self, m: &Vec<u8>) -> (r: Result<Vec<u8>, Error>) {
        Ok(duplicate(m))
    }
}

/// What the server knows of a method: its path, its flavor, and how its
/// messages are read and written.
pub struct MethodDescriptor<RM, WM> {
    pub name: Vec<u8>,
    pub streaming: GrpcStreaming,
    pub req_marshaller: RM,
    pub resp_marshaller: WM,
}

pub open spec fn arity_message() -> Seq<u8> {
    text("expected exactly one request message")
}

/// The one request of a stream that holds exactly one, else the error: that
/// of the stream where it failed before a second request came, else the
/// complaint about the number of requests.
pub open spec fn single_of<T>(req: StreamingRequest<T>) -> Result<T, ErrorView> {
    if req.items@.len() >= 2 {
        Err(ErrorView::Protocol(arity_message()))
    } else if req.error is Some {
        Err(req.error->Some_0@)
    } else if req.items@.len() == 0 {
        Err(ErrorView::Protocol(arity_message()))
    } else {
        Ok(req.items@[0])
    }
}

/// Collapses a stream of requests to the one request it must hold.
pub fn stream_single<T>(req: StreamingRequest<T>) -> (r: Result<T, Error>)
    ensures
        match r {
            Ok(x) => single_of(req) == Ok::<T, ErrorView>(x),
            Err(e) => single_of(req) == Err::<T, ErrorView>(e@),
        },
{
    let StreamingRequest { items, error } = req;
    let mut items = items;
    if items.len() >= 2 {
        return Err(Error::Protocol(literal("expected exactly one request message")));
    }
    match error {
        Some(e) => Err(e),
        None => match items.pop() {
            Some(x) => Ok(x),
            None => Err(Error::Protocol(literal("expected exactly one request message"))),
        },
    }
}

/// A handler of one method, whatever its flavor: from the requests of a call
/// to its responses.
pub trait MethodHandler<Req, Resp> {
    /// Whether the handler may be called on every input.
    spec fn wf(&self) -> bool;

    /// Whether the handler may answer `req` with `r`.
    spec fn responds(
        &self,
        o: RequestOptions,
        req: StreamingRequest<Req>,
        r: StreamingResponse<Resp>,
    ) -> bool;

    fn handle(&self, o: RequestOptions, req: StreamingRequest<Req>) -> (r: StreamingResponse<Resp>)
        requires
            self.wf(),
        ensures
            self.responds(o, req, r),
    ;
}

/// One request, one response.
pub struct MethodHandlerUnary<F> {
    pub f: F,
}

/// One request, any number of responses.
pub struct MethodHandlerServerStreaming<F> {
    pub f: F,
}

/// Any number of requests, one response.
pub struct MethodHandlerClientStreaming<F> {
    pub f: F,
}

/// Any number of requests, any number of responses.
pub struct MethodHandlerBidi<F> {
    pub f: F,
}

impl<F> MethodHandlerUnary<F> {
    pub fn new<Req, Resp>(f: F) -> (r: Self) where F: Fn(RequestOptions, Req) -> SingleResponse<Resp>
        ensures
            r.f == f,
    {
        MethodHandlerUnary { f }
    }

    pub fn streaming() -> (r: GrpcStreaming)
        ensures
            r == GrpcStreaming::Unary,
    {
        GrpcStreaming::Unary
    }
}

impl<F> MethodHandlerClientStreaming<F> {
    pub fn new<Req, Resp>(f: F) -> (r: Self) where
        F: Fn(RequestOptions, StreamingRequest<Req>) -> SingleResponse<Resp>,

        ensures
            r.f == f,
    {
        MethodHandlerClientStreaming { f }
    }

    pub fn streaming() -> (r: GrpcStreaming)
        ensures
            r == GrpcStreaming::ClientStreaming,
    {
        GrpcStreaming::ClientStreaming
    }
}

impl<F> MethodHandlerServerStreaming<F> {
    pub fn new<Req, Resp>(f: F) -> (r: Self) where
        F: Fn(RequestOptions, Req) -> StreamingResponse<Resp>,

        ensures
            r.f == f,
    {
        MethodHandlerServerStreaming { f }
    }

    pub fn streaming() -> (r: GrpcStreaming)
        ensures
            r == GrpcStreaming::ServerStreaming,
    {
        GrpcStreaming::ServerStreaming
    }
}

impl<F> MethodHandlerBidi<F> {
    pub fn new<Req, Resp>(f: F) -> (r: Self) where
        F: Fn(RequestOptions, StreamingRequest<Req>) -> StreamingResponse<Resp>,

        ensures
            r.f == f,
    {
        MethodHandlerBidi { f }
    }

    pub fn streaming() -> (r: GrpcStreaming)
        ensures
            r == GrpcStreaming::Bidi,
    {
        GrpcStreaming::Bidi
    }
}

impl<Req, Resp, F> MethodHandler<Req, Resp> for MethodHandlerUnary<F> where
    F: Fn(RequestOptions, Req) -> SingleResponse<Resp>,
 {
    open spec fn wf(&self) -> bool {
        forall|o: RequestOptions, x: Req| #[trigger] self.f.requires((o, x))
    }

    /// The closure is asked where the stream holds exactly one request, and
    /// its answer is lifted to a stream; otherwise the call fails at once.
    open spec fn responds(
        &self,
        o: RequestOptions,
        req: StreamingRequest<Req>,
        r: StreamingResponse<Resp>,
    ) -> bool {
        match single_of(req) {
            Ok(x) => exists|s: SingleResponse<Resp>| #[trigger] self.f.ensures((o, x), s) && lifts(s, r),
            Err(e) => r matches StreamingResponse::Failed(f) && f@ == e,
        }
    }

    fn handle(&self, o: RequestOptions, req: StreamingRequest<Req>) -> (r: StreamingResponse<Resp>) {
        match stream_single(req) {
            Ok(x) => {
                let s = (self.f)(o, x);
                let r = s.into_stream();
                assert(self.f.ensures((o, x), s) && lifts(s, r));
                r
            },
            Err(e) => StreamingResponse::Failed(e),
        }
    }
}

impl<Req, Resp, F> MethodHandler<Req, Resp> for MethodHandlerClientStreaming<F> where
    F: Fn(RequestOptions, StreamingRequest<Req>) -> SingleResponse<Resp>,
 {
    open spec fn wf(&self) -> bool {
        forall|o: RequestOptions, req: StreamingRequest<Req>| #[trigger] self.f.requires((o, req))
    }

    /// The closure gets the stream as it is; its answer is lifted to a stream.
    open spec fn responds(
        &self,
        o: RequestOptions,
        req: StreamingRequest<Req>,
        r: StreamingResponse<Resp>,
    ) -> bool {
        exists|s: SingleResponse<Resp>| #[trigger] self.f.ensures((o, req), s) && lifts(s, r)
    }

    fn handle(&self, o: RequestOptions, req: StreamingRequest<Req>) -> (r: StreamingResponse<Resp>) {
        let s = (self.f)(o, req);
        let r = s.into_stream();
        assert(self.f.ensures((o, req), s) && lifts(s, r));
        r
    }
}

impl<Req, Resp, F> MethodHandler<Req, Resp> for MethodHandlerServerStreaming<F> where
    F: Fn(RequestOptions, Req) -> StreamingResponse<Resp>,
 {
    open spec fn wf(&self) -> bool {
        forall|o: RequestOptions, x: Req| #[trigger] self.f.requires((o, x))
    }

    /// The closure is asked where the stream holds exactly one request;
    /// otherwise the call fails at once.
    open spec fn responds(
        &self,
        o: RequestOptions,
        req: StreamingRequest<Req>,
        r: StreamingResponse<Resp>,
    ) -> bool {
        match single_of(req) {
            Ok(x) => self.f.ensures((o, x), r),
            Err(e) => r matches StreamingResponse::Failed(f) && f@ == e,
        }
    }

    fn handle(&self, o: RequestOptions, req: StreamingRequest<Req>) -> (r: StreamingResponse<Resp>) {
        match stream_single(req) {
            Ok(x) => (self.f)(o, x),
            Err(e) => StreamingResponse::Failed(e),
        }
    }
}

impl<Req, Resp, F> MethodHandler<Req, Resp> for MethodHandlerBidi<F> where
    F: Fn(RequestOptions, StreamingRequest<Req>) -> StreamingResponse<Resp>,
 {
    open spec fn wf(&self) -> bool {
        forall|o: RequestOptions, req: StreamingRequest<Req>| #[trigger] self.f.requires((o, req))
    }

    /// The closure gets the stream as it is and its answer is the response.
    open spec fn responds(
        &self,
        o: RequestOptions,
        req: StreamingRequest<Req>,
        r: StreamingResponse<Resp>,
    ) -> bool {
        self.f.ensures((o, req), r)
    }

    fn handle(&self, o: RequestOptions, req: StreamingRequest<Req>) -> (r: StreamingResponse<Resp>) {
        (self.f)(o, req)
    }
}


/// A handler of any of the four flavors, so that methods of different
/// flavors can stand in one list.
pub enum Handler<U, C, S, B> {
    Unary(MethodHandlerUnary<U>),
    ClientStreaming(MethodHandlerClientStreaming<C>),
    ServerStreaming(MethodHandlerServerStreaming<S>),
    Bidi(MethodHandlerBidi<B>),
}

impl<U, C, S, B> Handler<U, C, S, B> {
    /// The flavor of the handler.
    pub fn streaming(&self) -> (r: GrpcStreaming)
        ensures
            r == match *self {
                Handler::Unary(_) => GrpcStreaming::Unary,
                Handler::ClientStreaming(_) => GrpcStreaming::ClientStreaming,
                Handler::ServerStreaming(_) => GrpcStreaming::ServerStreaming,
                Handler::Bidi(_) => GrpcStreaming::Bidi,
            },
    {
        match self {
            Handler::Unary(_) => GrpcStreaming::Unary,
            Handler::ClientStreaming(_) => GrpcStreaming::ClientStreaming,
            Handler::ServerStreaming(_) => GrpcStreaming::ServerStreaming,
            Handler::Bidi(_) => GrpcStreaming::Bidi,
        }
    }
}

impl<Req, Resp, U, C, S, B> MethodHandler<Req, Resp> for Handler<U, C, S, B> where
    U: Fn(RequestOptions, Req) -> SingleResponse<Resp>,
    C: Fn(RequestOptions, StreamingRequest<Req>) -> SingleResponse<Resp>,
    S: Fn(RequestOptions, Req) -> StreamingResponse<Resp>,
    B: Fn(RequestOptions, StreamingRequest<Req>) -> StreamingResponse<Resp>,
 {
    open spec fn wf(&self) -> bool {
        match *self {
            Handler::Unary(h) => MethodHandler::<Req, Resp>::wf(&h),
            Handler::ClientStreaming(h) => MethodHandler::<Req, Resp>::wf(&h),
            Handler::ServerStreaming(h) => MethodHandler::<Req, Resp>::wf(&h),
            Handler::Bidi(h) => MethodHandler::<Req, Resp>::wf(&h),
        }
    }

    /// The answer is that of the handler inside.
    open spec fn responds(
        &self,
        o: RequestOptions,
        req: StreamingRequest<Req>,
        r: StreamingResponse<Resp>,
    ) -> bool {
        match *self {
            Handler::Unary(h) => h.responds(o, req, r),
            Handler::ClientStreaming(h) => h.responds(o, req, r),
            Handler::ServerStreaming(h) => h.responds(o, req, r),
            Handler::Bidi(h) => h.responds(o, req, r),
        }
    }

    fn handle(&self, o: RequestOptions, req: StreamingRequest<Req>) -> (r: StreamingResponse<Resp>) {
        match self {
            Handler::Unary(h) => h.handle(o, req),
            Handler::ClientStreaming(h) => h.handle(o, req),
            Handler::ServerStreaming(h) => h.handle(o, req),
            Handler::Bidi(h) => h.handle(o, req),
        }
    }
}

} // verus!
