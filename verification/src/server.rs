use core::marker::PhantomData;
use vstd::prelude::*;
use crate::bridge::{frameable, http_response, http_response_500, http_response_of, rejected, wire, HttpResponse};
use crate::error::{Error, ErrorView};
use crate::frame::{decode_chunks, joined, payloads_of, scan, stream_error};
use crate::metadata::{headers_view, metadata_of, Header, Metadata, Pair};
use crate::method::{Marshaller, MethodDescriptor, MethodHandler};
use crate::status::duplicate;
use crate::stream::{error_view, RequestOptions, StreamingRequest, StreamingResponse};
use crate::text::{append_bytes, bytes_eq, literal, text};

verus! {

pub open spec fn oversize_message() -> Seq<u8> {
    text("message is too long for a frame")
}

/// Whether `req` is what reading the frames one by one gives: every frame
/// read, or the frames before the first that could not be read, and then
/// the error of that reading.
pub open spec fn decoded<Req, RM: Marshaller<Req>>(
    m: RM,
    frames: StreamingRequest<Vec<u8>>,
    req: StreamingRequest<Req>,
) -> bool {
    &&& req.items@.len() <= frames.items@.len()
    &&& forall|k: int|
        0 <= k < req.items@.len() ==> m.reads(frames.items@[k]@, Ok(#[trigger] req.items@[k]))
    &&& if req.items@.len() == frames.items@.len() {
        req.error == frames.error
    } else {
        req.error matches Some(e) && m.reads(frames.items@[req.items@.len() as int]@, Err(e))
    }
}

/// Whether writing `item` ends the stream with `e`: the marshaller refuses
/// it, or what it wrote does not fit a frame.
pub open spec fn cut_short<Resp, WM: Marshaller<Resp>>(m: WM, item: Resp, e: Error) -> bool {
    m.writes(item, Err(e)) || (e@ == ErrorView::Protocol(oversize_message()) && exists|v: Vec<u8>|
        #[trigger] m.writes(item, Ok(v)) && v@.len() > u32::MAX)
}

/// Whether `r` is what writing the messages of `resp` one by one gives: the
/// same metadata and end around every message written, or the messages
/// before the first that could not be written, and then that error.
pub open spec fn encoded<Resp, WM: Marshaller<Resp>>(
    m: WM,
    resp: StreamingResponse<Resp>,
    r: StreamingResponse<Vec<u8>>,
) -> bool {
    match resp {
        StreamingResponse::Failed(e) => r == StreamingResponse::<Vec<u8>>::Failed(e),
        StreamingResponse::Opened { initial, items, end } => {
            &&& r matches StreamingResponse::Opened { initial: initial2, items: out, end: end2 }
            &&& initial2 == initial
            &&& out@.len() <= items@.len()
            &&& forall|k: int|
                0 <= k < out@.len() ==> m.writes(items@[k], Ok(#[trigger] out@[k])) && out@[k]@.len()
                    <= u32::MAX
            &&& if out@.len() == items@.len() {
                end2 == end
            } else {
                end2 matches Err(e) && cut_short(m, items@[out@.len() as int], e)
            }
        },
    }
}

/// Reads the frames of a call into requests, up to the first that cannot
/// be read.
pub fn read_requests<Req, RM: Marshaller<Req>>(m: &RM, frames: StreamingRequest<Vec<u8>>) -> (r:
    StreamingRequest<Req>)
    ensures
        decoded(*m, frames, r),
{
    let StreamingRequest { items: raw, error } = frames;
    let mut items: Vec<Req> = Vec::new();
    let mut failure: Option<Error> = None;
    let mut i: usize = 0;
    while i < raw.len() && failure.is_none()
        invariant
            i <= raw@.len(),
            items@.len() == i,
            forall|k: int| 0 <= k < i ==> m.reads(raw@[k]@, Ok(#[trigger] items@[k])),
            failure matches Some(e) ==> i < raw@.len() && m.reads(raw@[i as int]@, Err(e)),
        decreases raw@.len() - i + (if failure is None { 1int } else { 0int }),
    {
        match m.read(raw[i].as_slice()) {
            Ok(x) => {
                items.push(x);
                i += 1;
            },
            Err(e) => {
                failure = Some(e);
            },
        }
    }
    match failure {
        Some(e) => StreamingRequest { items, error: Some(e) },
        None => StreamingRequest { items, error },
    }
}

/// Writes the messages of a response into payloads, up to the first that
/// cannot be written or framed.
pub fn write_responses<Resp, WM: Marshaller<Resp>>(m: &WM, resp: StreamingResponse<Resp>) -> (r:
    StreamingResponse<Vec<u8>>)
    ensures
        encoded(*m, resp, r),
        frameable(r),
{
    match resp {
        StreamingResponse::Failed(e) => StreamingResponse::Failed(e),
        StreamingResponse::Opened { initial, items, end } => {
            let mut out: Vec<Vec<u8>> = Vec::new();
            let mut failure: Option<Error> = None;
            let mut i: usize = 0;
            while i < items.len() && failure.is_none()
                invariant
                    i <= items@.len(),
                    out@.len() == i,
                    forall|k: int|
                        0 <= k < i ==> m.writes(items@[k], Ok(#[trigger] out@[k])) && out@[k]@.len()
                            <= u32::MAX,
                    failure matches Some(e) ==> i < items@.len() && cut_short(*m, items@[i as int], e),
                decreases items@.len() - i + (if failure is None { 1int } else { 0int }),
            {
                match m.write(&items[i]) {
                    Ok(v) => {
                        if v.len() > 0xFFFF_FFFF {
                            let e = Error::Protocol(literal("message is too long for a frame"));
                            assert(m.writes(items@[i as int], Ok(v)) && v@.len() > u32::MAX);
                            failure = Some(e);
                        } else {
                            out.push(v);
                            i += 1;
                        }
                    },
                    Err(e) => {
                        failure = Some(e);
                    },
                }
            }
            let end2 = match failure {
                Some(e) => Err(e),
                None => end,
            };
            StreamingResponse::Opened { initial, items: out, end: end2 }
        },
    }
}

/// A method as the server sees it: encoded requests in, encoded responses
/// out.
pub trait MethodHandlerDispatch {
    /// Whether the method may be started on every input.
    spec fn wf(&self) -> bool;

    /// Whether the method may answer `grpc_frames` with `r`.
    spec fn responds(
        &self,
        o: RequestOptions,
        grpc_frames: StreamingRequest<Vec<u8>>,
        r: StreamingResponse<Vec<u8>>,
    ) -> bool;

    fn start_request(&self, o: RequestOptions, grpc_frames: StreamingRequest<Vec<u8>>) -> (r:
        StreamingResponse<Vec<u8>>)
        requires
            self.wf(),
        ensures
            self.responds(o, grpc_frames, r),
            frameable(r),
    ;
}

/// A typed handler between the two marshallers of its method.
pub struct MethodHandlerDispatchImpl<Req, Resp, RM, WM, H> {
    pub desc: MethodDescriptor<RM, WM>,
    pub method_handler: H,
    pub messages: PhantomData<(Req, Resp)>,
}

impl<Req, Resp, RM, WM, H> MethodHandlerDispatch for MethodHandlerDispatchImpl<
    Req,
    Resp,
    RM,
    WM,
    H,
> where RM: Marshaller<Req>, WM: Marshaller<Resp>, H: MethodHandler<Req, Resp> {
    open spec fn wf(&self) -> bool {
        self.method_handler.wf()
    }

    /// The frames are read, the handler answers what was read, and its
    /// answer is written.
    open spec fn responds(
        &self,
        o: RequestOptions,
        grpc_frames: StreamingRequest<Vec<u8>>,
        r: StreamingResponse<Vec<u8>>,
    ) -> bool {
        exists|req: StreamingRequest<Req>, resp: StreamingResponse<Resp>|
            decoded(self.desc.req_marshaller, grpc_frames, req)
                && #[trigger] self.method_handler.responds(o, req, resp) && encoded(
                self.desc.resp_marshaller,
                resp,
                r,
            )
    }

    fn start_request(&self, o: RequestOptions, grpc_frames: StreamingRequest<Vec<u8>>) -> (r:
        StreamingResponse<Vec<u8>>) {
        let req = read_requests(&self.desc.req_marshaller, grpc_frames);
        let resp = self.method_handler.handle(o, req);
        let r = write_responses(&self.desc.resp_marshaller, resp);
        assert(decoded(self.desc.req_marshaller, grpc_frames, req) && self.method_handler.responds(
            o,
            req,
            resp,
        ) && encoded(self.desc.resp_marshaller, resp, r));
        r
    }
}

/// A method under its path.
pub struct ServerMethod<D> {
    pub name: Vec<u8>,
    pub dispatch: D,
}

impl<Req, Resp, RM, WM, H> ServerMethod<MethodHandlerDispatchImpl<Req, Resp, RM, WM, H>> where
    RM: Marshaller<Req>,
    WM: Marshaller<Resp>,
    H: MethodHandler<Req, Resp>,
 {
    /// Registers `handler` under the path of `method`.
    pub fn new(method: MethodDescriptor<RM, WM>, handler: H) -> (r: Self)
        ensures
            r.name@ == method.name@,
            r.dispatch.desc == method,
            r.dispatch.method_handler == handler,
    {
        ServerMethod {
            name: duplicate(&method.name),
            dispatch: MethodHandlerDispatchImpl {
                desc: method,
                method_handler: handler,
                messages: PhantomData,
            },
        }
    }
}

/// The methods that a server offers.
pub struct ServerServiceDefinition<D> {
    pub methods: Vec<ServerMethod<D>>,
}

/// The index of the last of `names` that is `name`.
pub open spec fn last_named(names: Seq<Seq<u8>>, name: Seq<u8>) -> Option<int>
    decreases names.len(),
{
    if names.len() == 0 {
        None
    } else if names.last() == name {
        Some(names.len() - 1)
    } else {
        last_named(names.drop_last(), name)
    }
}

/// The methods of several definitions, one definition after the other.
pub open spec fn all_methods<D>(defs: Seq<ServerServiceDefinition<D>>) -> Seq<ServerMethod<D>>
    decreases defs.len(),
{
    if defs.len() == 0 {
        Seq::empty()
    } else {
        defs[0].methods@ + all_methods(defs.skip(1))
    }
}

pub open spec fn unknown_method_message(name: Seq<u8>) -> Seq<u8> {
    text("unknown method: ") + name
}

impl<D: MethodHandlerDispatch> ServerServiceDefinition<D> {
    /// The paths of the methods, in the order of registration.
    pub open spec fn names(&self) -> Seq<Seq<u8>> {
        Seq::new(self.methods@.len(), |i: int| self.methods@[i].name@)
    }

    /// Where the method for `name` stands: the last one registered under it.
    pub open spec fn lookup(&self, name: Seq<u8>) -> Option<int> {
        last_named(self.names(), name)
    }

    /// Whether every method may be started on every input.
    pub open spec fn wf(&self) -> bool {
        forall|i: int| 0 <= i < self.methods@.len() ==> (#[trigger] self.methods@[i]).dispatch.wf()
    }

    /// Whether a call of `name` may be answered with `r`: by the method
    /// registered under that name, or, where there is none, by the error
    /// that says so.
    pub open spec fn answers(
        &self,
        name: Seq<u8>,
        o: RequestOptions,
        message: StreamingRequest<Vec<u8>>,
        r: StreamingResponse<Vec<u8>>,
    ) -> bool {
        match self.lookup(name) {
            Some(i) => self.methods@[i].dispatch.responds(o, message, r),
            None => r matches StreamingResponse::Failed(e) && e@ == ErrorView::Unimplemented(
                unknown_method_message(name),
            ),
        }
    }

    pub fn new(methods: Vec<ServerMethod<D>>) -> (r: Self)
        ensures
            r.methods == methods,
    {
        ServerServiceDefinition { methods }
    }

    /// Join multiple service definitions into one.
    pub fn join(defs: Vec<ServerServiceDefinition<D>>) -> (r: Self)
        ensures
            r.methods@ == all_methods(defs@),
    {
        let mut defs = defs;
        let ghost all = defs@;
        let mut methods: Vec<ServerMethod<D>> = Vec::new();
        assert(methods@ + all_methods(defs@) =~= all_methods(all));
        while defs.len() > 0
            invariant
                methods@ + all_methods(defs@) == all_methods(all),
            decreases defs@.len(),
        {
            let ghost before = methods@;
            let ghost rest = defs@;
            let mut d = defs.remove(0);
            assert(defs@ =~= rest.skip(1));
            methods.append(&mut d.methods);
            assert(methods@ + all_methods(defs@) =~= before + (rest[0].methods@ + all_methods(
                rest.skip(1),
            )));
        }
        assert(methods@ + all_methods(defs@) =~= methods@);
        ServerServiceDefinition { methods }
    }

    /// The method registered under `name`, if there is one.
    pub fn find_method(&self, name: &[u8]) -> (r: Option<&ServerMethod<D>>)
        ensures
            match r {
                Some(m) => {
                    &&& self.lookup(name@) matches Some(i)
                    &&& 0 <= i < self.methods@.len()
                    &&& *m == self.methods@[i]
                },
                None => self.lookup(name@) is None,
            },
    {
        let ghost names = self.names();
        let mut i: usize = self.methods.len();
        assert(names.take(i as int) =~= names);
        while i > 0
            invariant
                i <= self.methods@.len(),
                names == self.names(),
                last_named(names, name@) == last_named(names.take(i as int), name@),
            decreases i,
        {
            proof {
                assert(names.take(i as int).drop_last() =~= names.take(i - 1));
                assert(names.take(i as int).last() == self.methods@[i - 1].name@);
            }
            i -= 1;
            if bytes_eq(self.methods[i].name.as_slice(), name) {
                return Some(&self.methods[i]);
            }
        }
        None
    }

    /// Starts the call of the method under `name`.
    pub fn handle_method(&self, name: &[u8], o: RequestOptions, message: StreamingRequest<Vec<u8>>) -> (r:
        StreamingResponse<Vec<u8>>)
        requires
            self.wf(),
        ensures
            self.answers(name@, o, message, r),
            frameable(r),
    {
        match self.find_method(name) {
            Some(m) => m.dispatch.start_request(o, message),
            None => {
                let mut text = literal("unknown method: ");
                append_bytes(&mut text, name);
                StreamingResponse::Failed(Error::Unimplemented(text))
            },
        }
    }
}

/// Starts a call in the current task.
pub struct CallStarterSync;

impl CallStarterSync {
    pub fn start<D: MethodHandlerDispatch>(
        &self,
        service_definition: &ServerServiceDefinition<D>,
        name: &[u8],
        o: RequestOptions,
        message: StreamingRequest<Vec<u8>>,
    ) -> (r: StreamingResponse<Vec<u8>>)
        requires
            service_definition.wf(),
        ensures
            service_definition.answers(name@, o, message, r),
            frameable(r),
    {
        service_definition.handle_method(name, o, message)
    }
}

/// The value of the first header named `:path`.
pub open spec fn path_of(headers: Seq<Pair>) -> Option<Seq<u8>>
    decreases headers.len(),
{
    if headers.len() == 0 {
        None
    } else if headers[0].0 == text(":path") {
        Some(headers[0].1)
    } else {
        path_of(headers.skip(1))
    }
}

/// Reads the path of a request out of its headers.
pub fn request_path(headers: &Vec<Header>) -> (r: Option<Vec<u8>>)
    ensures
        match r {
            Some(p) => path_of(headers_view(headers@)) == Some(p@),
            None => path_of(headers_view(headers@)) is None,
        },
{
    let ghost all = headers_view(headers@);
    let wanted = literal(":path");
    let mut i: usize = 0;
    assert(all.skip(0) =~= all);
    while i < headers.len()
        invariant
            i <= headers@.len(),
            all == headers_view(headers@),
            wanted@ == text(":path"),
            path_of(all) == path_of(all.skip(i as int)),
        decreases headers@.len() - i,
    {
        assert(all.skip(i as int)[0] == all[i as int]);
        assert(all.skip(i as int).skip(1) =~= all.skip(i + 1));
        if bytes_eq(headers[i].name.as_slice(), wanted.as_slice()) {
            return Some(duplicate(&headers[i].value));
        }
        i += 1;
    }
    None
}

/// The bridge between HTTP requests and the methods of a service.
pub struct GrpcHttpService<D> {
    pub service_definition: ServerServiceDefinition<D>,
    pub call_starter: CallStarterSync,
}

impl<D: MethodHandlerDispatch> GrpcHttpService<D> {
    /// Whether `r` may be the response to a request for `path` with
    /// metadata `m` and the body `body`: the body is deframed, the service
    /// answers what it held, and `r` carries that answer.
    pub open spec fn serves(
        &self,
        path: Seq<u8>,
        m: Seq<Pair>,
        body: Seq<u8>,
        o: RequestOptions,
        frames: StreamingRequest<Vec<u8>>,
        resp: StreamingResponse<Vec<u8>>,
        r: HttpResponse,
    ) -> bool {
        &&& o.metadata@ == m
        &&& payloads_of(frames.items@) == scan(body).frames
        &&& error_view(frames.error) == stream_error(body)
        &&& self.service_definition.answers(path, o, frames, resp)
        &&& r@ == http_response_of(wire(resp))
    }

    /// Whether `r` may be the response to a request with these headers and
    /// this body: a refusal where the headers name no path or hold no
    /// metadata, else what the service's answer looks like on the wire.
    pub open spec fn outcome(&self, headers: Seq<Pair>, body: Seq<u8>, r: HttpResponse) -> bool {
        match path_of(headers) {
            None => r@ == rejected(text("no :path header")),
            Some(path) => match metadata_of(headers) {
                Err(_) => r@ == rejected(text("decode metadata error")),
                Ok(m) => self.started(path, m, body, r),
            },
        }
    }

    /// Whether `r` may be the response to a call that was started.
    pub open spec fn started(&self, path: Seq<u8>, m: Seq<Pair>, body: Seq<u8>, r: HttpResponse) -> bool {
        exists|o: RequestOptions, frames: StreamingRequest<Vec<u8>>, resp: StreamingResponse<Vec<u8>>|
            #[trigger] self.serves(path, m, body, o, frames, resp, r)
    }

    /// Answers one HTTP request, given its headers and the chunks of its
    /// body. Without a path, or with headers that hold no metadata, the
    /// request is refused; otherwise the call is started and its response
    /// is put on the wire.
    pub fn start_request(&self, headers: Vec<Header>, body: &Vec<Vec<u8>>) -> (r: HttpResponse)
        requires
            self.service_definition.wf(),
        ensures
            self.outcome(headers_view(headers@), joined(payloads_of(body@)), r),
    {
        let path = match request_path(&headers) {
            Some(path) => path,
            None => {
                return http_response_500("no :path header");
            },
        };
        let grpc_request = decode_chunks(body);
        let metadata = match Metadata::from_headers(headers) {
            Ok(metadata) => metadata,
            Err(_) => {
                return http_response_500("decode metadata error");
            },
        };
        let o = RequestOptions { metadata };
        let grpc_response = self.call_starter.start(
            &self.service_definition,
            path.as_slice(),
            o,
            grpc_request,
        );
        let r = http_response(grpc_response);
        assert(self.serves(
            path@,
            metadata@,
            joined(payloads_of(body@)),
            o,
            grpc_request,
            grpc_response,
            r,
        ));
        assert(self.started(path@, metadata@, joined(payloads_of(body@)), r));
        r
    }
}

/// The settings of the transport that the server reads.
pub struct HttpServerConf {
    pub thread_name: Option<String>,
}

/// The settings of a server.
pub struct ServerConf {
    pub http: HttpServerConf,
}

/// The name that the server's thread gets when none is set.
pub open spec fn default_thread_name() -> Seq<char> {
    "grpc-server-loop"@
}

impl ServerConf {
    /// Settings with nothing set.
    pub fn new() -> (r: Self)
        ensures
            r.http.thread_name is None,
    {
        ServerConf { http: HttpServerConf { thread_name: None } }
    }

    /// The settings with which the server runs: the thread's name is the
    /// one given, or the default.
    pub fn with_thread_name(self) -> (r: Self)
        ensures
            r.http.thread_name is Some,
            r.http.thread_name->Some_0@ == (match self.http.thread_name {
                Some(n) => n@,
                None => default_thread_name(),
            }),
    {
        let name = match self.http.thread_name {
            Some(n) => n,
            None => "grpc-server-loop".to_owned(),
        };
        ServerConf { http: HttpServerConf { thread_name: Some(name) } }
    }
}


/// One of two kinds of method, so that methods whose messages differ in
/// type can stand in one list.
pub enum EitherDispatch<A, B> {
    First(A),
    Second(B),
}

impl<A: MethodHandlerDispatch, B: MethodHandlerDispatch> MethodHandlerDispatch for EitherDispatch<
    A,
    B,
> {
    open spec fn wf(&self) -> bool {
        match *self {
            EitherDispatch::First(a) => a.wf(),
            EitherDispatch::Second(b) => b.wf(),
        }
    }

    /// The answer is that of the method inside.
    open spec fn responds(
        &self,
        o: RequestOptions,
        grpc_frames: StreamingRequest<Vec<u8>>,
        r: StreamingResponse<Vec<u8>>,
    ) -> bool {
        match *self {
            EitherDispatch::First(a) => a.responds(o, grpc_frames, r),
            EitherDispatch::Second(b) => b.responds(o, grpc_frames, r),
        }
    }

    fn start_request(&self, o: RequestOptions, grpc_frames: StreamingRequest<Vec<u8>>) -> (r:
        StreamingResponse<Vec<u8>>) {
        match self {
            EitherDispatch::First(a) => a.start_request(o, grpc_frames),
            EitherDispatch::Second(b) => b.start_request(o, grpc_frames),
        }
    }
}

} // verus!
