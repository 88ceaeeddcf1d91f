use vstd::prelude::*;
use crate::bridge::{
    data_parts, end_trailers, error_trailers, http_response_of, message_pair, opening_headers,
    status_pair, PartView, ResponseView, WireResponse,
};
use crate::error::ErrorView;
use crate::metadata::{
    base64_bytes, base64_text, headers_of, is_binary, is_reserved, is_transport, metadata_of, Pair,
};
use crate::method::{arity_message, MethodHandler, MethodHandlerUnary};
use crate::status::{decimal, message_of, status_of};
use crate::stream::{RequestOptions, SingleResponse, StreamingRequest, StreamingResponse};
use crate::text::{lower, text};

verus! {

/// Whether a header is the status of a call, whatever the case of its name.
pub open spec fn is_status_name(name: Seq<u8>) -> bool {
    lower(name) == text("grpc-status")
}

/// How many headers of a block are the status of a call.
pub open spec fn status_count(h: Seq<Pair>) -> nat
    decreases h.len(),
{
    if h.len() == 0 {
        0
    } else {
        status_count(h.drop_last()) + if is_status_name(h.last().0) {
            1nat
        } else {
            0nat
        }
    }
}

proof fn lemma_names()
    ensures
        is_status_name(text("grpc-status")),
        !is_status_name(text("grpc-message")),
        !is_status_name(text(":status")),
        !is_status_name(text("content-type")),
{
    reveal_strlit("grpc-status");
    reveal_strlit("grpc-message");
    reveal_strlit(":status");
    reveal_strlit("content-type");
    assert(vstd::utf8::is_ascii_chars("grpc-status"@));
    assert(vstd::utf8::is_ascii_chars("grpc-message"@));
    assert(vstd::utf8::is_ascii_chars(":status"@));
    assert(vstd::utf8::is_ascii_chars("content-type"@));
    vstd::utf8::is_ascii_chars_encode_utf8("grpc-status"@);
    vstd::utf8::is_ascii_chars_encode_utf8("grpc-message"@);
    vstd::utf8::is_ascii_chars_encode_utf8(":status"@);
    vstd::utf8::is_ascii_chars_encode_utf8("content-type"@);
    assert(lower(text("grpc-status")) =~= text("grpc-status"));
    assert(lower(text("grpc-message")).len() == 12);
    assert(lower(text(":status")).len() == 7);
    assert(lower(text("content-type")).len() == 12);
}

proof fn lemma_count_push(h: Seq<Pair>, p: Pair)
    ensures
        status_count(h.push(p)) == status_count(h) + if is_status_name(p.0) {
            1nat
        } else {
            0nat
        },
{
    assert(h.push(p).drop_last() =~= h);
}

proof fn lemma_count_append(a: Seq<Pair>, b: Seq<Pair>)
    ensures
        status_count(a + b) == status_count(a) + status_count(b),
    decreases b.len(),
{
    if b.len() == 0 {
        assert(a + b =~= a);
    } else {
        assert((a + b).drop_last() =~= a + b.drop_last());
        lemma_count_append(a, b.drop_last());
    }
}

/// Metadata that can be written as headers gives no status header.
pub proof fn lemma_metadata_has_no_status(m: Seq<Pair>)
    requires
        headers_of(m) is Ok,
    ensures
        status_count(headers_of(m)->Ok_0) == 0,
    decreases m.len(),
{
    if m.len() > 0 {
        lemma_metadata_has_no_status(m.drop_last());
        let h = headers_of(m.drop_last())->Ok_0;
        let e = m.last();
        assert(!is_transport(e.0));
        lemma_count_push(h, headers_of(m)->Ok_0.last());
        assert(headers_of(m)->Ok_0.drop_last() =~= h);
    }
}

proof fn lemma_error_trailers_count(e: ErrorView)
    ensures
        status_count(error_trailers(e)) == 1,
{
    lemma_names();
    let none = Seq::<Pair>::empty();
    let a = status_pair(status_of(e));
    let b = message_pair(message_of(e));
    lemma_count_push(none, a);
    lemma_count_push(none.push(a), b);
    assert(error_trailers(e) =~= none.push(a).push(b));
}

proof fn lemma_opening_count()
    ensures
        status_count(opening_headers()) == 0,
{
    lemma_names();
    let none = Seq::<Pair>::empty();
    let a = (text(":status"), text("200"));
    let b = (text("content-type"), text("application/grpc"));
    lemma_count_push(none, a);
    lemma_count_push(none.push(a), b);
    assert(opening_headers() =~= none.push(a).push(b));
}

/// Every response carries the status of its call exactly once, in the
/// header block that ends it: in the headers where the response is nothing
/// else, otherwise in the last part, after nothing but data.
pub proof fn lemma_one_status(resp: WireResponse)
    ensures
        ({
            let v = http_response_of(resp);
            if v.parts.len() == 0 {
                status_count(v.headers) == 1
            } else {
                &&& status_count(v.headers) == 0
                &&& v.parts.last() matches PartView::LastHeaders(t) && status_count(t) == 1
                &&& forall|i: int| 0 <= i < v.parts.len() - 1 ==> #[trigger] v.parts[i] is Data
            }
        }),
{
    let v = http_response_of(resp);
    lemma_opening_count();
    match resp {
        WireResponse::Failed(e) => {
            lemma_error_trailers_count(e);
            lemma_count_append(opening_headers(), error_trailers(e));
        },
        WireResponse::Opened { initial, items, end } => {
            match headers_of(initial) {
                Err(e) => {
                    lemma_error_trailers_count(e);
                    lemma_count_append(opening_headers(), error_trailers(e));
                },
                Ok(h) => {
                    lemma_metadata_has_no_status(initial);
                    lemma_count_append(opening_headers(), h);
                    let t = end_trailers(end);
                    match end {
                        Err(e) => {
                            lemma_error_trailers_count(e);
                        },
                        Ok(trailing) => match headers_of(trailing) {
                            Err(e) => {
                                lemma_error_trailers_count(e);
                            },
                            Ok(th) => {
                                lemma_names();
                                lemma_metadata_has_no_status(trailing);
                                lemma_count_push(Seq::<Pair>::empty(), status_pair(0));
                                assert(seq![status_pair(0)] =~= Seq::<Pair>::empty().push(
                                    status_pair(0),
                                ));
                                lemma_count_append(seq![status_pair(0)], th);
                            },
                        },
                    }
                    assert(status_count(t) == 1);
                },
            }
        },
    }
}

/// A status that a handler signals goes on the wire as it is: alone where
/// the call failed before it opened, else after the messages sent so far.
pub proof fn lemma_status_passthrough(initial: Seq<Pair>, items: Seq<Seq<u8>>, s: int, m: Seq<u8>)
    ensures
        ({
            let e = ErrorView::GrpcMessage { grpc_status: s, grpc_message: m };
            let report = seq![(text("grpc-status"), decimal(s)), (text("grpc-message"), m)];
            &&& http_response_of(WireResponse::Failed(e)) == (ResponseView {
                headers: opening_headers() + report,
                parts: Seq::empty(),
            })
            &&& headers_of(initial) is Ok ==> http_response_of(
                WireResponse::Opened { initial, items, end: Err(e) },
            ).parts == data_parts(items).push(PartView::LastHeaders(report))
        }),
{
}

/// A fault inside a handler is reported with its text and the status 13,
/// and nothing else is sent.
pub proof fn lemma_panic_is_reported(p: Seq<u8>)
    ensures
        http_response_of(WireResponse::Failed(ErrorView::Panic(p))) == (ResponseView {
            headers: opening_headers() + seq![
                (text("grpc-status"), decimal(13)),
                (text("grpc-message"), p),
            ],
            parts: Seq::empty(),
        }),
{
}

/// A method of one request that is called with none, or with more than
/// one, fails before it opens, and the failure is reported with status 13.
pub proof fn lemma_unary_arity<Req, Resp, F: Fn(RequestOptions, Req) -> SingleResponse<Resp>>(
    h: MethodHandlerUnary<F>,
    o: RequestOptions,
    req: StreamingRequest<Req>,
    r: StreamingResponse<Resp>,
)
    requires
        req.error is None,
        req.items@.len() != 1,
        h.responds(o, req, r),
    ensures
        r matches StreamingResponse::Failed(e) && e@ == ErrorView::Protocol(arity_message()),
        http_response_of(WireResponse::Failed(ErrorView::Protocol(arity_message()))) == (ResponseView {
            headers: opening_headers() + seq![
                (text("grpc-status"), decimal(13)),
                (text("grpc-message"), arity_message()),
            ],
            parts: Seq::empty(),
        }),
{
}

/// Metadata without reserved names, whose binary values read back from
/// their base64 text, can be written as headers, and the headers read back
/// as the same metadata in the same order.
pub proof fn lemma_metadata_round_trip(m: Seq<Pair>)
    requires
        forall|i: int| 0 <= i < m.len() ==> !is_reserved(#[trigger] m[i].0),
        forall|i: int|
            0 <= i < m.len() && is_binary(#[trigger] m[i].0) ==> base64_bytes(base64_text(m[i].1))
                == Some(m[i].1),
    ensures
        headers_of(m) is Ok,
        metadata_of(headers_of(m)->Ok_0) == Ok::<Seq<Pair>, ErrorView>(m),
    decreases m.len(),
{
    if m.len() > 0 {
        let front = m.drop_last();
        let e = m.last();
        assert(e == m[m.len() - 1]);
        assert forall|i: int| 0 <= i < front.len() implies !is_reserved(#[trigger] front[i].0) by {
            assert(front[i] == m[i]);
        }
        assert forall|i: int| 0 <= i < front.len() && is_binary(#[trigger] front[i].0) implies base64_bytes(
            base64_text(front[i].1),
        ) == Some(front[i].1) by {
            assert(front[i] == m[i]);
        }
        lemma_metadata_round_trip(front);
        let h = headers_of(front)->Ok_0;
        let all = headers_of(m)->Ok_0;
        let k = m.len() - 1;
        assert(!is_reserved(m[k].0));
        assert(is_binary(m[k].0) ==> base64_bytes(base64_text(m[k].1)) == Some(m[k].1));
        assert(all == h.push(all.last()));
        assert(all.drop_last() =~= h);
        assert(all.last().0 == e.0);
        assert(front.push(e) =~= m);
    } else {
        assert(m =~= Seq::<Pair>::empty());
    }
}

} // verus!
