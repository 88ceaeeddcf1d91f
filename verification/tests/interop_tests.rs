use grpc_server::error::Error;
use grpc_server::interop::{
    EchoStatus, Empty, Payload, ResponseParameters, SimpleRequest, StreamingInputCallRequest,
    StreamingOutputCallRequest, TestServerImpl, DICTIONARY_SIZE,
};
use grpc_server::metadata::Metadata;
use grpc_server::method::{Marshaller, MarshallerBytes};
use grpc_server::server::{read_requests, write_responses};
use grpc_server::stream::{RequestOptions, StreamingRequest, StreamingResponse};

fn options() -> RequestOptions {
    RequestOptions { metadata: Metadata::new() }
}

fn no_status() -> EchoStatus {
    EchoStatus { code: 0, message: vec![] }
}

fn asking(sizes: &[i32], code: i32, message: &[u8]) -> StreamingOutputCallRequest {
    StreamingOutputCallRequest {
        response_parameters: sizes.iter().map(|s| ResponseParameters { size: *s }).collect(),
        response_status: EchoStatus { code, message: message.to_vec() },
    }
}

#[test]
fn dictionary_has_58_bytes() {
    assert_eq!(DICTIONARY_SIZE, 58);
}

#[test]
fn empty_call_completes() {
    let r = (TestServerImpl {}).empty_call(options(), Empty);
    match r.result {
        Ok((initial, _, trailing)) => {
            assert!(initial.entries.is_empty());
            assert!(trailing.entries.is_empty());
        }
        Err(_) => panic!("expected a response"),
    }
}

#[test]
fn unary_call_fills_the_payload() {
    let req = SimpleRequest { response_size: 3, response_status: no_status() };
    match (TestServerImpl {}).unary_call(options(), req).result {
        Ok((_, x, _)) => assert_eq!(x.payload.body, b"ABC".to_vec()),
        Err(_) => panic!("expected a response"),
    }
}

#[test]
fn unary_call_echoes_the_status() {
    let req = SimpleRequest { response_size: 3, response_status: EchoStatus { code: 5, message: b"nope".to_vec() } };
    match (TestServerImpl {}).unary_call(options(), req).result {
        Err(Error::GrpcMessage { grpc_status, grpc_message }) => {
            assert_eq!(grpc_status, 5);
            assert_eq!(grpc_message, b"nope".to_vec());
        }
        _ => panic!("expected the status"),
    }
}

#[test]
fn cacheable_unary_call_answers_empty() {
    let req = SimpleRequest { response_size: 9, response_status: no_status() };
    match (TestServerImpl {}).cacheable_unary_call(options(), req).result {
        Ok((_, x, _)) => assert!(x.payload.body.is_empty()),
        Err(_) => panic!("expected a response"),
    }
}

#[test]
fn half_duplex_call_answers_nothing() {
    let reqs = StreamingRequest::new(vec![asking(&[4], 0, b"")]);
    match (TestServerImpl {}).half_duplex_call(options(), reqs) {
        StreamingResponse::Opened { items, end, .. } => {
            assert!(items.is_empty());
            assert!(end.is_ok());
        }
        _ => panic!("expected a stream"),
    }
}

#[test]
fn streaming_output_call_sizes() {
    match (TestServerImpl {}).streaming_output_call(options(), asking(&[0, 2, 59], 0, b"")) {
        StreamingResponse::Opened { items, end, .. } => {
            let lens: Vec<usize> = items.iter().map(|i| i.payload.body.len()).collect();
            assert_eq!(lens, vec![0, 2, 59]);
            assert_eq!(items[1].payload.body, b"AB".to_vec());
            assert_eq!(items[2].payload.body[58], b'A');
            assert!(end.is_ok());
        }
        _ => panic!("expected a stream"),
    }
}

#[test]
fn streaming_input_call_sums_the_lengths() {
    let reqs = StreamingRequest::new(
        [7usize, 11, 13].iter().map(|n| StreamingInputCallRequest { payload: Payload { body: vec![0; *n] } }).collect(),
    );
    match (TestServerImpl {}).streaming_input_call(options(), reqs).result {
        Ok((_, x, _)) => assert_eq!(x.aggregated_payload_size, 31),
        Err(_) => panic!("expected a response"),
    }
    let none = StreamingRequest::new(vec![]);
    match (TestServerImpl {}).streaming_input_call(options(), none).result {
        Ok((_, x, _)) => assert_eq!(x.aggregated_payload_size, 0),
        Err(_) => panic!("expected a response"),
    }
    let broken = StreamingRequest { items: vec![], error: Some(Error::StreamClosed) };
    assert!(matches!((TestServerImpl {}).streaming_input_call(options(), broken).result, Err(Error::StreamClosed)));
}

#[test]
fn full_duplex_call_stops_at_the_first_status() {
    let reqs = StreamingRequest::new(vec![asking(&[4, 1], 0, b""), asking(&[], 0, b""), asking(&[2], 13, b"boom"), asking(&[3], 0, b"")]);
    match (TestServerImpl {}).full_duplex_call(options(), reqs) {
        StreamingResponse::Opened { items, end, .. } => {
            let got: Vec<Vec<u8>> = items.into_iter().map(|i| i.payload.body).collect();
            assert_eq!(got, vec![b"ABCD".to_vec(), b"A".to_vec()]);
            match end {
                Err(Error::GrpcMessage { grpc_status, grpc_message }) => {
                    assert_eq!(grpc_status, 13);
                    assert_eq!(grpc_message, b"boom".to_vec());
                }
                _ => panic!("expected the status"),
            }
        }
        _ => panic!("expected a stream"),
    }
}

#[test]
fn full_duplex_call_passes_the_input_error_on() {
    let reqs = StreamingRequest { items: vec![asking(&[1], 0, b"")], error: Some(Error::StreamClosed) };
    match (TestServerImpl {}).full_duplex_call(options(), reqs) {
        StreamingResponse::Opened { items, end, .. } => {
            assert_eq!(items.len(), 1);
            assert!(matches!(end, Err(Error::StreamClosed)));
        }
        _ => panic!("expected a stream"),
    }
}

#[test]
fn bytes_marshaller_copies() {
    assert_eq!(MarshallerBytes.read(b"abc").unwrap(), b"abc".to_vec());
    assert_eq!(MarshallerBytes.write(&b"xyz".to_vec()).unwrap(), b"xyz".to_vec());
}

#[test]
fn requests_and_responses_pass_the_marshallers_in_order() {
    let frames = StreamingRequest { items: vec![b"a".to_vec(), b"bc".to_vec()], error: Some(Error::StreamClosed) };
    let reqs = read_requests(&MarshallerBytes, frames);
    assert_eq!(reqs.items, vec![b"a".to_vec(), b"bc".to_vec()]);
    assert!(matches!(reqs.error, Some(Error::StreamClosed)));
    let resp = StreamingResponse::Opened {
        initial: Metadata::new(),
        items: vec![b"1".to_vec(), b"22".to_vec()],
        end: Err(Error::Other(b"late".to_vec())),
    };
    match write_responses(&MarshallerBytes, resp) {
        StreamingResponse::Opened { items, end, .. } => {
            assert_eq!(items, vec![b"1".to_vec(), b"22".to_vec()]);
            assert!(matches!(end, Err(Error::Other(_))));
        }
        _ => panic!("expected a stream"),
    }
}
