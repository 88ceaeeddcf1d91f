use vstd::prelude::*;
use crate::error::{Error, ErrorView};
use crate::metadata::Metadata;
use crate::status::duplicate;
use crate::stream::{error_view, RequestOptions, SingleResponse, StreamingRequest, StreamingResponse};
use crate::text::{literal, text};

verus! {

/// Length of the dictionary that payloads are filled from.
pub const DICTIONARY_SIZE: usize = 58;

/// The dictionary that payloads are filled from.
pub open spec fn dictionary() -> Seq<u8> {
    text("ABCDEFGHIJKLMNOPQRSTUVabcdefghijklmnoqprstuvwxyz0123456789")
}

/// The first `size` bytes of the dictionary repeated without end.
pub open spec fn dictionary_text(size: nat) -> Seq<u8> {
    Seq::new(size, |i: int| dictionary()[i % 58])
}

proof fn lemma_dictionary_len()
    ensures
        dictionary().len() == 58,
{
    reveal_strlit("ABCDEFGHIJKLMNOPQRSTUVabcdefghijklmnoqprstuvwxyz0123456789");
    assert(vstd::utf8::is_ascii_chars(
        "ABCDEFGHIJKLMNOPQRSTUVabcdefghijklmnoqprstuvwxyz0123456789"@,
    ));
    vstd::utf8::is_ascii_chars_encode_utf8(
        "ABCDEFGHIJKLMNOPQRSTUVabcdefghijklmnoqprstuvwxyz0123456789"@,
    );
}

/// Returns a buffer of the given size that holds printable bytes.
pub fn make_string(size: usize) -> (r: Vec<u8>)
    ensures
        r@ == dictionary_text(size as nat),
{
    let dict = literal("ABCDEFGHIJKLMNOPQRSTUVabcdefghijklmnoqprstuvwxyz0123456789");
    proof {
        lemma_dictionary_len();
    }
    let mut result: Vec<u8> = Vec::new();
    let mut n: usize = 0;
    while n < size
        invariant
            n <= size,
            dict@ == dictionary(),
            dict@.len() == 58,
            result@ == dictionary_text(n as nat),
        decreases size - n,
    {
        result.push(dict[n % DICTIONARY_SIZE]);
        n += 1;
        assert(result@ =~= dictionary_text(n as nat));
    }
    result
}

pub struct Empty;

pub struct EchoStatus {
    pub code: i32,
    pub message: Vec<u8>,
}

pub struct Payload {
    pub body: Vec<u8>,
}

pub struct ResponseParameters {
    pub size: i32,
}

pub struct SimpleRequest {
    pub response_size: i32,
    pub response_status: EchoStatus,
}

pub struct SimpleResponse {
    pub payload: Payload,
}

pub struct StreamingOutputCallRequest {
    pub response_parameters: Vec<ResponseParameters>,
    pub response_status: EchoStatus,
}

pub struct StreamingOutputCallResponse {
    pub payload: Payload,
}

pub struct StreamingInputCallRequest {
    pub payload: Payload,
}

pub struct StreamingInputCallResponse {
    pub aggregated_payload_size: i32,
}

/// The error that a request asks to be answered with.
pub open spec fn echo_error(status: EchoStatus) -> ErrorView {
    ErrorView::GrpcMessage { grpc_status: status.code as int, grpc_message: status.message@ }
}

/// The payloads of a list of responses.
pub open spec fn bodies(items: Seq<StreamingOutputCallResponse>) -> Seq<Seq<u8>> {
    Seq::new(items.len(), |i: int| items[i].payload.body@)
}

/// One payload of each of the sizes asked for, in order.
pub open spec fn bodies_for(params: Seq<ResponseParameters>) -> Seq<Seq<u8>> {
    Seq::new(params.len(), |i: int| dictionary_text(params[i].size as nat))
}

/// Whether no size asked for is negative.
pub open spec fn sizes_ok(params: Seq<ResponseParameters>) -> bool {
    forall|i: int| 0 <= i < params.len() ==> (#[trigger] params[i]).size >= 0
}

/// The sum of the payload lengths of the requests.
pub open spec fn total_len(reqs: Seq<StreamingInputCallRequest>) -> int
    decreases reqs.len(),
{
    if reqs.len() == 0 {
        0
    } else {
        total_len(reqs.drop_last()) + reqs.last().payload.body@.len()
    }
}

/// The error that ends a two-way call: that of the first request that asks
/// for one.
pub open spec fn duplex_error(reqs: Seq<StreamingOutputCallRequest>) -> Option<ErrorView>
    decreases reqs.len(),
{
    if reqs.len() == 0 {
        None
    } else {
        match duplex_error(reqs.drop_last()) {
            Some(e) => Some(e),
            None => if reqs.last().response_status.code != 0 {
                Some(echo_error(reqs.last().response_status))
            } else {
                None
            },
        }
    }
}

/// The payloads of a two-way call: those that each request asks for, up to
/// the first request that asks for an error.
pub open spec fn duplex_bodies(reqs: Seq<StreamingOutputCallRequest>) -> Seq<Seq<u8>>
    decreases reqs.len(),
{
    if reqs.len() == 0 {
        Seq::empty()
    } else if duplex_error(reqs) is Some {
        duplex_bodies(reqs.drop_last())
    } else {
        duplex_bodies(reqs.drop_last()) + bodies_for(reqs.last().response_parameters@)
    }
}

fn push_bodies(out: &mut Vec<StreamingOutputCallResponse>, params: &Vec<ResponseParameters>)
    requires
        sizes_ok(params@),
    ensures
        bodies(final(out)@) == bodies(old(out)@) + bodies_for(params@),
{
    let mut i: usize = 0;
    assert(bodies(out@) =~= bodies(old(out)@) + bodies_for(params@).take(0));
    while i < params.len()
        invariant
            i <= params@.len(),
            sizes_ok(params@),
            bodies(out@) == bodies(old(out)@) + bodies_for(params@).take(i as int),
        decreases params@.len() - i,
    {
        let ghost before = bodies(out@);
        let body = make_string(params[i].size as usize);
        out.push(StreamingOutputCallResponse { payload: Payload { body } });
        i += 1;
        assert(bodies(out@) =~= before.push(body@));
        assert(bodies(out@) =~= bodies(old(out)@) + bodies_for(params@).take(i as int));
    }
    assert(bodies_for(params@).take(params@.len() as int) =~= bodies_for(params@));
}

/// The service that clients of other implementations are tested against.
pub struct TestServerImpl {}

impl TestServerImpl {
    /// Answers an empty message with an empty message.
    pub fn empty_call(&self, _o: RequestOptions, _req: Empty) -> (r: SingleResponse<Empty>)
        ensures
            r.result matches Ok((initial, x, trailing)) && initial@.len() == 0 && trailing@.len()
                == 0,
    {
        SingleResponse::completed(Empty)
    }

    /// Answers with the status asked for where it is not zero, else with a
    /// payload of the size asked for.
    pub fn unary_call(&self, _o: RequestOptions, req: SimpleRequest) -> (r: SingleResponse<
        SimpleResponse,
    >)
        requires
            req.response_size >= 0,
        ensures
            match r.result {
                Err(e) => req.response_status.code != 0 && e@ == echo_error(req.response_status),
                Ok((initial, x, trailing)) => {
                    &&& req.response_status.code == 0
                    &&& x.payload.body@ == dictionary_text(req.response_size as nat)
                    &&& initial@.len() == 0
                    &&& trailing@.len() == 0
                },
            },
    {
        if req.response_status.code != 0 {
            return SingleResponse::err(
                Error::GrpcMessage {
                    grpc_status: req.response_status.code,
                    grpc_message: req.response_status.message,
                },
            );
        }
        let payload = Payload { body: make_string(req.response_size as usize) };
        SingleResponse::completed(SimpleResponse { payload })
    }

    /// Answers with a response that holds an empty payload.
    pub fn cacheable_unary_call(&self, _o: RequestOptions, _req: SimpleRequest) -> (r: SingleResponse<
        SimpleResponse,
    >)
        ensures
            r.result matches Ok((initial, x, trailing)) && x.payload.body@.len() == 0
                && initial@.len() == 0 && trailing@.len() == 0,
    {
        SingleResponse::completed(SimpleResponse { payload: Payload { body: Vec::new() } })
    }

    /// Answers with no message at all.
    pub fn half_duplex_call(
        &self,
        _o: RequestOptions,
        _req_stream: StreamingRequest<StreamingOutputCallRequest>,
    ) -> (r: StreamingResponse<StreamingOutputCallResponse>)
        ensures
            r matches StreamingResponse::Opened { initial, items, end: Ok(t) } && items@.len() == 0
                && initial@.len() == 0 && t@.len() == 0,
    {
        StreamingResponse::empty()
    }

    /// Answers with one payload of each size asked for, in order.
    pub fn streaming_output_call(&self, _o: RequestOptions, req: StreamingOutputCallRequest) -> (r:
        StreamingResponse<StreamingOutputCallResponse>)
        requires
            sizes_ok(req.response_parameters@),
        ensures
            r matches StreamingResponse::Opened { initial, items, end: Ok(trailing) } && bodies(
                items@,
            ) == bodies_for(req.response_parameters@) && initial@.len() == 0 && trailing@.len()
                == 0,
    {
        let mut items: Vec<StreamingOutputCallResponse> = Vec::new();
        assert(bodies(items@) =~= Seq::<Seq<u8>>::empty());
        push_bodies(&mut items, &req.response_parameters);
        assert(bodies(items@) =~= bodies_for(req.response_parameters@));
        StreamingResponse::no_metadata(items)
    }

    /// Answers with the sum of the payload lengths of the requests, or with
    /// the error that ended them.
    pub fn streaming_input_call(
        &self,
        _o: RequestOptions,
        req_stream: StreamingRequest<StreamingInputCallRequest>,
    ) -> (r: SingleResponse<StreamingInputCallResponse>)
        requires
            total_len(req_stream.items@) <= i32::MAX,
        ensures
            match r.result {
                Err(e) => req_stream.error == Some(e),
                Ok((initial, x, trailing)) => {
                    &&& req_stream.error is None
                    &&& x.aggregated_payload_size == total_len(req_stream.items@)
                    &&& initial@.len() == 0
                    &&& trailing@.len() == 0
                },
            },
    {
        let StreamingRequest { items, error } = req_stream;
        let mut sum: i32 = 0;
        let mut i: usize = 0;
        assert(items@.take(0) =~= Seq::<StreamingInputCallRequest>::empty());
        while i < items.len()
            invariant
                i <= items@.len(),
                total_len(items@) <= i32::MAX,
                0 <= sum == total_len(items@.take(i as int)),
            decreases items@.len() - i,
        {
            let n: usize = items[i].payload.body.len();
            proof {
                assert(items@.take(i + 1).drop_last() =~= items@.take(i as int));
                assert(items@.take(i + 1).last() == items@[i as int]);
                assert(total_len(items@.take(i + 1)) == sum + n);
                lemma_total_grows(items@, i + 1);
            }
            sum = sum + n as i32;
            i += 1;
        }
        assert(items@.take(items@.len() as int) =~= items@);
        match error {
            Some(e) => SingleResponse::err(e),
            None => SingleResponse::completed(
                StreamingInputCallResponse { aggregated_payload_size: sum },
            ),
        }
    }

    /// Answers each request in turn with one payload of each size it asks
    /// for, until a request asks for an error or the requests end.
    pub fn full_duplex_call(
        &self,
        _o: RequestOptions,
        req_stream: StreamingRequest<StreamingOutputCallRequest>,
    ) -> (r: StreamingResponse<StreamingOutputCallResponse>)
        requires
            forall|i: int|
                0 <= i < req_stream.items@.len() ==> sizes_ok(
                    (#[trigger] req_stream.items@[i]).response_parameters@,
                ),
        ensures
            r matches StreamingResponse::Opened { initial, items, end } && initial@.len() == 0
                && bodies(items@) == duplex_bodies(req_stream.items@) && (match duplex_error(
                req_stream.items@,
            ) {
                Some(e) => end matches Err(f) && f@ == e,
                None => match req_stream.error {
                    Some(e) => end == Err::<Metadata, Error>(e),
                    None => end matches Ok(t) && t@.len() == 0,
                },
            }),
    {
        let StreamingRequest { items: reqs, error } = req_stream;
        let mut out: Vec<StreamingOutputCallResponse> = Vec::new();
        let mut failure: Option<Error> = None;
        let mut i: usize = 0;
        assert(reqs@.take(0) =~= Seq::<StreamingOutputCallRequest>::empty());
        assert(bodies(out@) =~= Seq::<Seq<u8>>::empty());
        while i < reqs.len()
            invariant
                i <= reqs@.len(),
                forall|k: int| 0 <= k < reqs@.len() ==> sizes_ok((#[trigger] reqs@[k]).response_parameters@),
                bodies(out@) == duplex_bodies(reqs@.take(i as int)),
                error_view(failure) == duplex_error(reqs@.take(i as int)),
            decreases reqs@.len() - i,
        {
            proof {
                assert(reqs@.take(i + 1).drop_last() =~= reqs@.take(i as int));
                assert(reqs@.take(i + 1).last() == reqs@[i as int]);
            }
            if failure.is_none() {
                let req = &reqs[i];
                if req.response_status.code != 0 {
                    failure = Some(
                        Error::GrpcMessage {
                            grpc_status: req.response_status.code,
                            grpc_message: duplicate(&req.response_status.message),
                        },
                    );
                } else {
                    push_bodies(&mut out, &req.response_parameters);
                }
            }
            i += 1;
        }
        assert(reqs@.take(reqs@.len() as int) =~= reqs@);
        let end = match failure {
            Some(e) => Err(e),
            None => match error {
                Some(e) => Err(e),
                None => Ok(Metadata::new()),
            },
        };
        StreamingResponse::Opened { initial: Metadata::new(), items: out, end }
    }
}

proof fn lemma_total_grows(reqs: Seq<StreamingInputCallRequest>, k: int)
    requires
        0 <= k <= reqs.len(),
    ensures
        0 <= total_len(reqs.take(k)) <= total_len(reqs),
    decreases reqs.len() - k,
{
    lemma_total_nonneg(reqs.take(k));
    if k == reqs.len() {
        assert(reqs.take(k) =~= reqs);
    } else {
        assert(reqs.take(k + 1).drop_last() =~= reqs.take(k));
        lemma_total_grows(reqs, k + 1);
    }
}

proof fn lemma_total_nonneg(reqs: Seq<StreamingInputCallRequest>)
    ensures
        0 <= total_len(reqs),
    decreases reqs.len(),
{
    if reqs.len() > 0 {
        lemma_total_nonneg(reqs.drop_last());
    }
}

} // verus!
