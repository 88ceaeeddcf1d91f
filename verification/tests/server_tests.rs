use grpc_server::bridge::{http_response, http_response_500, HttpResponse, HttpStreamPart};
use grpc_server::error::Error;
use grpc_server::frame::write_grpc_frame_to_vec;
use grpc_server::interop::{
    make_string, EchoStatus, Empty, Payload, ResponseParameters, SimpleRequest,
    StreamingInputCallRequest, StreamingOutputCallRequest, TestServerImpl,
};
use grpc_server::metadata::{Header, Metadata};
use grpc_server::method::{
    stream_single, GrpcStreaming, Handler, MarshallerBytes, MethodDescriptor, MethodHandler,
    MethodHandlerBidi, MethodHandlerClientStreaming, MethodHandlerServerStreaming, MethodHandlerUnary,
};
use grpc_server::server::{
    request_path, CallStarterSync, EitherDispatch, GrpcHttpService, MethodHandlerDispatchImpl,
    ServerConf, ServerMethod, ServerServiceDefinition,
};
use grpc_server::stream::{RequestOptions, SingleResponse, StreamingRequest, StreamingResponse};

type U = fn(RequestOptions, Vec<u8>) -> SingleResponse<Vec<u8>>;
type C = fn(RequestOptions, StreamingRequest<Vec<u8>>) -> SingleResponse<Vec<u8>>;
type S = fn(RequestOptions, Vec<u8>) -> StreamingResponse<Vec<u8>>;
type B = fn(RequestOptions, StreamingRequest<Vec<u8>>) -> StreamingResponse<Vec<u8>>;
type H = Handler<U, C, S, B>;
type D = MethodHandlerDispatchImpl<Vec<u8>, Vec<u8>, MarshallerBytes, MarshallerBytes, H>;

const DICTIONARY: &str = "ABCDEFGHIJKLMNOPQRSTUVabcdefghijklmnoqprstuvwxyz0123456789";

// The messages of the test service in a plain layout: a status code, the
// number of sizes, the sizes, then the status message.
fn output_request(code: u8, sizes: &[u8], message: &[u8]) -> Vec<u8> {
    let mut v = vec![code, sizes.len() as u8];
    v.extend_from_slice(sizes);
    v.extend_from_slice(message);
    v
}

fn read_output_request(b: &[u8]) -> StreamingOutputCallRequest {
    let n = b[1] as usize;
    StreamingOutputCallRequest {
        response_parameters: b[2..2 + n].iter().map(|s| ResponseParameters { size: *s as i32 }).collect(),
        response_status: EchoStatus { code: b[0] as i32, message: b[2 + n..].to_vec() },
    }
}

fn bodies_of(r: StreamingResponse<grpc_server::interop::StreamingOutputCallResponse>) -> StreamingResponse<Vec<u8>> {
    match r {
        StreamingResponse::Failed(e) => StreamingResponse::Failed(e),
        StreamingResponse::Opened { initial, items, end } => StreamingResponse::Opened {
            initial,
            items: items.into_iter().map(|i| i.payload.body).collect(),
            end,
        },
    }
}

fn empty_call(o: RequestOptions, _req: Vec<u8>) -> SingleResponse<Vec<u8>> {
    match (TestServerImpl {}).empty_call(o, Empty).result {
        Ok((i, _, t)) => SingleResponse { result: Ok((i, vec![], t)) },
        Err(e) => SingleResponse::err(e),
    }
}

fn unary_call(o: RequestOptions, req: Vec<u8>) -> SingleResponse<Vec<u8>> {
    let req = SimpleRequest {
        response_size: req[0] as i32,
        response_status: EchoStatus { code: req[1] as i32, message: req[2..].to_vec() },
    };
    match (TestServerImpl {}).unary_call(o, req).result {
        Ok((i, x, t)) => SingleResponse { result: Ok((i, x.payload.body, t)) },
        Err(e) => SingleResponse::err(e),
    }
}

fn streaming_output_call(o: RequestOptions, req: Vec<u8>) -> StreamingResponse<Vec<u8>> {
    bodies_of((TestServerImpl {}).streaming_output_call(o, read_output_request(&req)))
}

fn streaming_input_call(o: RequestOptions, reqs: StreamingRequest<Vec<u8>>) -> SingleResponse<Vec<u8>> {
    let reqs = StreamingRequest {
        items: reqs.items.into_iter().map(|b| StreamingInputCallRequest { payload: Payload { body: b } }).collect(),
        error: reqs.error,
    };
    match (TestServerImpl {}).streaming_input_call(o, reqs).result {
        Ok((i, x, t)) => SingleResponse { result: Ok((i, x.aggregated_payload_size.to_be_bytes().to_vec(), t)) },
        Err(e) => SingleResponse::err(e),
    }
}

fn full_duplex_call(o: RequestOptions, reqs: StreamingRequest<Vec<u8>>) -> StreamingResponse<Vec<u8>> {
    let reqs = StreamingRequest {
        items: reqs.items.iter().map(|b| read_output_request(b)).collect(),
        error: reqs.error,
    };
    bodies_of((TestServerImpl {}).full_duplex_call(o, reqs))
}

fn with_metadata(_o: RequestOptions, req: Vec<u8>) -> SingleResponse<Vec<u8>> {
    let mut initial = Metadata::new();
    initial.add(b"lead-bin".to_vec(), vec![1, 2, 3]);
    let mut trailing = Metadata::new();
    trailing.add(b"tail".to_vec(), b"t".to_vec());
    SingleResponse { result: Ok((initial, req, trailing)) }
}

fn echo_metadata(o: RequestOptions, _req: Vec<u8>) -> SingleResponse<Vec<u8>> {
    SingleResponse { result: Ok((o.metadata, vec![], Metadata::new())) }
}

fn bad_trailer(_o: RequestOptions, req: Vec<u8>) -> SingleResponse<Vec<u8>> {
    let mut trailing = Metadata::new();
    trailing.add(b"grpc-status".to_vec(), b"0".to_vec());
    SingleResponse { result: Ok((Metadata::new(), req, trailing)) }
}

fn method(path: &str, h: H) -> ServerMethod<D> {
    let desc = MethodDescriptor {
        name: path.as_bytes().to_vec(),
        streaming: h.streaming(),
        req_marshaller: MarshallerBytes,
        resp_marshaller: MarshallerBytes,
    };
    ServerMethod::new(desc, h)
}

fn methods() -> Vec<ServerMethod<D>> {
    vec![
        method("/grpc.testing.TestService/EmptyCall", Handler::Unary(MethodHandlerUnary::new(empty_call as U))),
        method("/grpc.testing.TestService/UnaryCall", Handler::Unary(MethodHandlerUnary::new(unary_call as U))),
        method(
            "/grpc.testing.TestService/StreamingOutputCall",
            Handler::ServerStreaming(MethodHandlerServerStreaming::new(streaming_output_call as S)),
        ),
        method(
            "/grpc.testing.TestService/StreamingInputCall",
            Handler::ClientStreaming(MethodHandlerClientStreaming::new(streaming_input_call as C)),
        ),
        method(
            "/grpc.testing.TestService/FullDuplexCall",
            Handler::Bidi(MethodHandlerBidi::new(full_duplex_call as B)),
        ),
        method("/test/WithMetadata", Handler::Unary(MethodHandlerUnary::new(with_metadata as U))),
        method("/test/EchoMetadata", Handler::Unary(MethodHandlerUnary::new(echo_metadata as U))),
        method("/test/BadTrailer", Handler::Unary(MethodHandlerUnary::new(bad_trailer as U))),
    ]
}

fn service() -> GrpcHttpService<D> {
    GrpcHttpService { service_definition: ServerServiceDefinition::new(methods()), call_starter: CallStarterSync }
}

fn request(path: &str) -> Vec<Header> {
    vec![
        Header { name: b":method".to_vec(), value: b"POST".to_vec() },
        Header { name: b":path".to_vec(), value: path.as_bytes().to_vec() },
        Header { name: b"content-type".to_vec(), value: b"application/grpc".to_vec() },
        Header { name: b"te".to_vec(), value: b"trailers".to_vec() },
    ]
}

fn frames(payloads: &[Vec<u8>]) -> Vec<Vec<u8>> {
    payloads.iter().map(|p| write_grpc_frame_to_vec(p)).collect()
}

fn pairs(h: &Vec<Header>) -> Vec<(String, String)> {
    h.iter()
        .map(|e| (String::from_utf8(e.name.clone()).unwrap(), String::from_utf8(e.value.clone()).unwrap()))
        .collect()
}

fn p(k: &str, v: &str) -> (String, String) {
    (k.to_string(), v.to_string())
}

fn opening() -> Vec<(String, String)> {
    vec![p(":status", "200"), p("content-type", "application/grpc")]
}

fn data(r: &HttpResponse) -> Vec<Vec<u8>> {
    let n = r.parts.len();
    r.parts[..n - 1]
        .iter()
        .map(|part| match part {
            HttpStreamPart::Data(d) => d.clone(),
            HttpStreamPart::LastHeaders(_) => panic!("headers before the end"),
        })
        .collect()
}

fn trailers(r: &HttpResponse) -> Vec<(String, String)> {
    match r.parts.last() {
        Some(HttpStreamPart::LastHeaders(h)) => pairs(h),
        _ => panic!("the stream does not end with headers"),
    }
}

fn status_headers(h: &Vec<(String, String)>) -> usize {
    h.iter().filter(|(k, _)| k.to_ascii_lowercase() == "grpc-status").count()
}

#[test]
fn empty_call_scenario() {
    let r = service().start_request(request("/grpc.testing.TestService/EmptyCall"), &vec![vec![0, 0, 0, 0, 0]]);
    assert_eq!(pairs(&r.headers), opening());
    assert_eq!(data(&r), vec![vec![0u8, 0, 0, 0, 0]]);
    assert_eq!(trailers(&r), vec![p("grpc-status", "0")]);
}

#[test]
fn unary_call_echo_size_scenario() {
    let body = frames(&[vec![58, 0]]);
    let r = service().start_request(request("/grpc.testing.TestService/UnaryCall"), &body);
    assert_eq!(pairs(&r.headers), opening());
    let d = data(&r);
    assert_eq!(d.len(), 1);
    assert_eq!(&d[0][..5], &[0, 0, 0, 0, 58]);
    assert_eq!(&d[0][5..], DICTIONARY.as_bytes());
    assert_eq!(trailers(&r), vec![p("grpc-status", "0")]);
}

#[test]
fn unary_call_forced_failure_scenario() {
    let mut req = vec![0u8, 5];
    req.extend_from_slice(b"nope");
    let r = service().start_request(request("/grpc.testing.TestService/UnaryCall"), &frames(&[req]));
    let mut want = opening();
    want.push(p("grpc-status", "5"));
    want.push(p("grpc-message", "nope"));
    assert_eq!(pairs(&r.headers), want);
    assert!(r.parts.is_empty());
}

#[test]
fn streaming_output_call_scenario() {
    let body = frames(&[output_request(0, &[10, 20, 30], b"")]);
    let r = service().start_request(request("/grpc.testing.TestService/StreamingOutputCall"), &body);
    assert_eq!(pairs(&r.headers), opening());
    let d = data(&r);
    assert_eq!(d.iter().map(|f| f.len() - 5).collect::<Vec<_>>(), vec![10, 20, 30]);
    assert_eq!(d[2], write_grpc_frame_to_vec(&DICTIONARY.as_bytes()[..30]));
    assert_eq!(trailers(&r), vec![p("grpc-status", "0")]);
}

#[test]
fn streaming_input_call_scenario() {
    let body = frames(&[vec![1u8; 7], vec![2u8; 11], vec![3u8; 13]]);
    let r = service().start_request(request("/grpc.testing.TestService/StreamingInputCall"), &body);
    assert_eq!(pairs(&r.headers), opening());
    assert_eq!(data(&r), vec![write_grpc_frame_to_vec(&31i32.to_be_bytes())]);
    assert_eq!(trailers(&r), vec![p("grpc-status", "0")]);
}

#[test]
fn full_duplex_call_mid_stream_failure_scenario() {
    let body = frames(&[output_request(0, &[4], b""), output_request(13, &[9], b"boom"), output_request(0, &[2], b"")]);
    let r = service().start_request(request("/grpc.testing.TestService/FullDuplexCall"), &body);
    assert_eq!(pairs(&r.headers), opening());
    assert_eq!(data(&r), vec![write_grpc_frame_to_vec(b"ABCD")]);
    assert_eq!(trailers(&r), vec![p("grpc-status", "13"), p("grpc-message", "boom")]);
}

#[test]
fn unknown_method_scenario() {
    let r = service().start_request(request("/no.such.Service/Method"), &vec![]);
    let mut want = opening();
    want.push(p("grpc-status", "12"));
    want.push(p("grpc-message", "unknown method: /no.such.Service/Method"));
    assert_eq!(pairs(&r.headers), want);
    assert!(r.parts.is_empty());
}

#[test]
fn unary_with_no_request_is_status_13() {
    let r = service().start_request(request("/grpc.testing.TestService/UnaryCall"), &vec![]);
    let mut want = opening();
    want.push(p("grpc-status", "13"));
    want.push(p("grpc-message", "expected exactly one request message"));
    assert_eq!(pairs(&r.headers), want);
    assert!(r.parts.is_empty());
}

#[test]
fn unary_with_two_requests_is_status_13() {
    let body = frames(&[vec![1, 0], vec![2, 0]]);
    for path in ["/grpc.testing.TestService/UnaryCall", "/grpc.testing.TestService/StreamingOutputCall"] {
        let r = service().start_request(request(path), &body);
        let mut want = opening();
        want.push(p("grpc-status", "13"));
        want.push(p("grpc-message", "expected exactly one request message"));
        assert_eq!(pairs(&r.headers), want);
        assert!(r.parts.is_empty());
    }
}

#[test]
fn unary_with_broken_body_reports_the_framing_error() {
    let r = service().start_request(request("/grpc.testing.TestService/UnaryCall"), &vec![vec![0, 0, 0]]);
    let mut want = opening();
    want.push(p("grpc-status", "13"));
    want.push(p("grpc-message", "input ended inside a frame"));
    assert_eq!(pairs(&r.headers), want);
}

#[test]
fn missing_path_is_refused() {
    let headers = vec![Header { name: b"te".to_vec(), value: b"trailers".to_vec() }];
    let r = service().start_request(headers, &vec![]);
    assert_eq!(pairs(&r.headers), vec![p(":status", "500"), p("grpc-status", "13"), p("grpc-message", "no :path header")]);
    assert!(r.parts.is_empty());
}

#[test]
fn undecodable_metadata_is_refused() {
    let mut headers = request("/grpc.testing.TestService/EmptyCall");
    headers.push(Header { name: b"k-bin".to_vec(), value: b"***".to_vec() });
    let r = service().start_request(headers, &vec![vec![0, 0, 0, 0, 0]]);
    assert_eq!(
        pairs(&r.headers),
        vec![p(":status", "500"), p("grpc-status", "13"), p("grpc-message", "decode metadata error")]
    );
    assert!(r.parts.is_empty());
}

#[test]
fn response_500_holds_the_message() {
    let r = http_response_500("some reason");
    assert_eq!(pairs(&r.headers), vec![p(":status", "500"), p("grpc-status", "13"), p("grpc-message", "some reason")]);
    assert!(r.parts.is_empty());
}

#[test]
fn handler_metadata_goes_before_and_after_the_data() {
    let r = service().start_request(request("/test/WithMetadata"), &frames(&[b"x".to_vec()]));
    let mut want = opening();
    want.push(p("lead-bin", "AQID"));
    assert_eq!(pairs(&r.headers), want);
    assert_eq!(data(&r), vec![write_grpc_frame_to_vec(b"x")]);
    assert_eq!(trailers(&r), vec![p("grpc-status", "0"), p("tail", "t")]);
}

#[test]
fn request_metadata_reaches_the_handler() {
    let mut headers = request("/test/EchoMetadata");
    headers.push(Header { name: b"token-bin".to_vec(), value: b"AQID".to_vec() });
    headers.push(Header { name: b"who".to_vec(), value: b"me".to_vec() });
    let r = service().start_request(headers, &frames(&[vec![]]));
    let mut want = opening();
    want.push(p("token-bin", "AQID"));
    want.push(p("who", "me"));
    assert_eq!(pairs(&r.headers), want);
}

#[test]
fn reserved_key_in_trailing_metadata_is_status_13() {
    let r = service().start_request(request("/test/BadTrailer"), &frames(&[b"x".to_vec()]));
    assert_eq!(data(&r), vec![write_grpc_frame_to_vec(b"x")]);
    assert_eq!(trailers(&r), vec![p("grpc-status", "13"), p("grpc-message", "metadata holds a reserved key")]);
}

#[test]
fn every_response_has_one_status_in_its_last_block() {
    let bodies = vec![
        frames(&[]),
        frames(&[vec![3, 0]]),
        frames(&[vec![0, 2, 1, 2]]),
        frames(&[vec![0, 0], vec![0, 1, 5]]),
        vec![vec![0, 0, 0]],
    ];
    for m in methods() {
        for body in &bodies {
            let path = String::from_utf8(m.name.clone()).unwrap();
            let r = service().start_request(request(&path), body);
            if r.parts.is_empty() {
                assert_eq!(status_headers(&pairs(&r.headers)), 1);
            } else {
                assert_eq!(status_headers(&pairs(&r.headers)), 0);
                assert_eq!(status_headers(&trailers(&r)), 1);
                let _ = data(&r);
            }
        }
    }
}

#[test]
fn panic_text_is_reported_with_status_13() {
    let resp: StreamingResponse<Vec<u8>> = StreamingResponse::err(Error::Panic(b"index out of bounds".to_vec()));
    let r = http_response(resp);
    let mut want = opening();
    want.push(p("grpc-status", "13"));
    want.push(p("grpc-message", "index out of bounds"));
    assert_eq!(pairs(&r.headers), want);
    assert!(r.parts.is_empty());
}

#[test]
fn handler_status_passes_through() {
    let e = Error::GrpcMessage { grpc_status: 7, grpc_message: b"denied".to_vec() };
    let resp = StreamingResponse::Opened { initial: Metadata::new(), items: vec![b"a".to_vec()], end: Err(e) };
    let r = http_response(resp);
    assert_eq!(data(&r), vec![write_grpc_frame_to_vec(b"a")]);
    assert_eq!(trailers(&r), vec![p("grpc-status", "7"), p("grpc-message", "denied")]);
}

#[test]
fn other_errors_are_status_2() {
    for e in [Error::Other(b"odd".to_vec()), Error::StreamClosed] {
        let message = match &e {
            Error::Other(m) => String::from_utf8(m.clone()).unwrap(),
            _ => "stream closed".to_string(),
        };
        let resp: StreamingResponse<Vec<u8>> = StreamingResponse::err(e);
        let r = http_response(resp);
        let mut want = opening();
        want.push(p("grpc-status", "2"));
        want.push(p("grpc-message", &message));
        assert_eq!(pairs(&r.headers), want);
    }
}

#[test]
fn stream_single_wants_exactly_one() {
    assert_eq!(stream_single(StreamingRequest::new(vec![4u8])).unwrap(), 4);
    assert!(matches!(stream_single(StreamingRequest::<u8>::new(vec![])), Err(Error::Protocol(_))));
    assert!(matches!(stream_single(StreamingRequest::new(vec![1u8, 2])), Err(Error::Protocol(_))));
    let broken = StreamingRequest { items: vec![1u8], error: Some(Error::StreamClosed) };
    assert!(matches!(stream_single(broken), Err(Error::StreamClosed)));
}

#[test]
fn adapters_name_their_flavor() {
    assert_eq!(MethodHandlerUnary::<U>::streaming(), GrpcStreaming::Unary);
    assert_eq!(MethodHandlerClientStreaming::<C>::streaming(), GrpcStreaming::ClientStreaming);
    assert_eq!(MethodHandlerServerStreaming::<S>::streaming(), GrpcStreaming::ServerStreaming);
    assert_eq!(MethodHandlerBidi::<B>::streaming(), GrpcStreaming::Bidi);
}

#[test]
fn bidi_adapter_passes_the_stream_through() {
    let h = MethodHandlerBidi::new(|_o: RequestOptions, req: StreamingRequest<u8>| StreamingResponse::no_metadata(req.items));
    let o = RequestOptions { metadata: Metadata::new() };
    match h.handle(o, StreamingRequest::new(vec![1u8, 2, 3])) {
        StreamingResponse::Opened { items, end, .. } => {
            assert_eq!(items, vec![1, 2, 3]);
            assert!(end.is_ok());
        }
        _ => panic!("expected a stream"),
    }
}

#[test]
fn last_registered_method_wins() {
    let mut all = methods();
    all.push(method("/grpc.testing.TestService/EmptyCall", Handler::Unary(MethodHandlerUnary::new(with_metadata as U))));
    let def = ServerServiceDefinition::new(all);
    let found = def.find_method(b"/grpc.testing.TestService/EmptyCall").unwrap();
    assert_eq!(found.dispatch.method_handler.streaming(), GrpcStreaming::Unary);
    let o = RequestOptions { metadata: Metadata::new() };
    match def.handle_method(b"/grpc.testing.TestService/EmptyCall", o, StreamingRequest::new(vec![b"q".to_vec()])) {
        StreamingResponse::Opened { initial, items, .. } => {
            assert_eq!(initial.entries.len(), 1);
            assert_eq!(items, vec![b"q".to_vec()]);
        }
        _ => panic!("expected a stream"),
    }
    assert!(def.find_method(b"grpc.testing.TestService/EmptyCall").is_none());
    assert!(def.find_method(b"/grpc.testing.TestService/emptycall").is_none());
}

#[test]
fn join_keeps_every_method_in_order() {
    let mut first = methods();
    let second = first.split_off(3);
    let joined = ServerServiceDefinition::join(vec![
        ServerServiceDefinition::new(first),
        ServerServiceDefinition::new(vec![]),
        ServerServiceDefinition::new(second),
    ]);
    let names: Vec<Vec<u8>> = joined.methods.iter().map(|m| m.name.clone()).collect();
    let want: Vec<Vec<u8>> = methods().iter().map(|m| m.name.clone()).collect();
    assert_eq!(names, want);
}

#[test]
fn request_path_is_the_first_path_header() {
    let mut headers = request("/a/b");
    headers.push(Header { name: b":path".to_vec(), value: b"/c/d".to_vec() });
    assert_eq!(request_path(&headers), Some(b"/a/b".to_vec()));
    assert_eq!(request_path(&vec![]), None);
}

#[test]
fn make_string_repeats_the_dictionary() {
    assert_eq!(make_string(0), Vec::<u8>::new());
    assert_eq!(make_string(58), DICTIONARY.as_bytes().to_vec());
    let s = make_string(60);
    assert_eq!(&s[58..], b"AB");
    assert_eq!(&make_string(40)[36..], b"oqpr");
}

#[test]
fn thread_name_defaults() {
    let conf = ServerConf::new().with_thread_name();
    assert_eq!(conf.http.thread_name.as_deref(), Some("grpc-server-loop"));
    let mut conf = ServerConf::new();
    conf.http.thread_name = Some("mine".to_string());
    assert_eq!(conf.with_thread_name().http.thread_name.as_deref(), Some("mine"));
}

#[test]
fn methods_of_two_kinds_stand_in_one_service() {
    let mut all = methods();
    let second = all.remove(1);
    let first = all.remove(0);
    let mixed: Vec<ServerMethod<EitherDispatch<D, D>>> = vec![
        ServerMethod { name: first.name, dispatch: EitherDispatch::First(first.dispatch) },
        ServerMethod { name: second.name, dispatch: EitherDispatch::Second(second.dispatch) },
    ];
    let service = GrpcHttpService { service_definition: ServerServiceDefinition::new(mixed), call_starter: CallStarterSync };
    let r = service.start_request(request("/grpc.testing.TestService/UnaryCall"), &frames(&[vec![2, 0]]));
    assert_eq!(data(&r), vec![write_grpc_frame_to_vec(b"AB")]);
    assert_eq!(trailers(&r), vec![p("grpc-status", "0")]);
    let r = service.start_request(request("/grpc.testing.TestService/EmptyCall"), &frames(&[vec![]]));
    assert_eq!(data(&r), vec![vec![0u8, 0, 0, 0, 0]]);
}

#[test]
fn inline_starter_answers_like_the_service() {
    let def = ServerServiceDefinition::new(methods());
    let o = RequestOptions { metadata: Metadata::new() };
    let r = CallStarterSync.start(&def, b"/nowhere", o, StreamingRequest::new(vec![]));
    match r {
        StreamingResponse::Failed(Error::Unimplemented(m)) => assert_eq!(m, b"unknown method: /nowhere".to_vec()),
        _ => panic!("expected an unknown method"),
    }
}
