use vstd::prelude::*;
use crate::error::{Error, ErrorView};
use crate::frame::{frame_bytes, write_grpc_frame_to_vec};
use crate::metadata::{headers_of, headers_view, Header, Metadata, Pair};
use crate::status::{decimal, grpc_message, grpc_status, message_of, status_of, status_text};
use crate::stream::StreamingResponse;
use crate::text::{literal, text};

verus! {

/// One part of the body of an HTTP response.
pub enum HttpStreamPart {
    /// Data that is not the end of the stream.
    Data(Vec<u8>),
    /// The header block that ends the stream.
    LastHeaders(Vec<Header>),
}

/// An HTTP response: its headers, then the parts of its body in order.
pub struct HttpResponse {
    pub headers: Vec<Header>,
    pub parts: Vec<HttpStreamPart>,
}

pub enum PartView {
    Data(Seq<u8>),
    LastHeaders(Seq<Pair>),
}

pub struct ResponseView {
    pub headers: Seq<Pair>,
    pub parts: Seq<PartView>,
}

impl View for HttpStreamPart {
    type V = PartView;

    open spec fn view(&self) -> PartView {
        match *self {
            HttpStreamPart::Data(d) => PartView::Data(d@),
            HttpStreamPart::LastHeaders(h) => PartView::LastHeaders(headers_view(h@)),
        }
    }
}

impl View for HttpResponse {
    type V = ResponseView;

    open spec fn view(&self) -> ResponseView {
        ResponseView {
            headers: headers_view(self.headers@),
            parts: Seq::new(self.parts@.len(), |i: int| self.parts@[i]@),
        }
    }
}

/// A response of encoded messages, as the bridge reads it.
pub enum WireResponse {
    Failed(ErrorView),
    Opened { initial: Seq<Pair>, items: Seq<Seq<u8>>, end: Result<Seq<Pair>, ErrorView> },
}

/// The mathematical value of a response of encoded messages.
pub open spec fn wire(resp: StreamingResponse<Vec<u8>>) -> WireResponse {
    match resp {
        StreamingResponse::Failed(e) => WireResponse::Failed(e@),
        StreamingResponse::Opened { initial, items, end } => WireResponse::Opened {
            initial: initial@,
            items: Seq::new(items@.len(), |i: int| items@[i]@),
            end: match end {
                Ok(t) => Ok(t@),
                Err(e) => Err(e@),
            },
        },
    }
}

/// Whether every message of the response fits the length field of a frame.
pub open spec fn frameable(resp: StreamingResponse<Vec<u8>>) -> bool {
    resp matches StreamingResponse::Opened { initial, items, end } ==> forall|i: int|
        0 <= i < items@.len() ==> (#[trigger] items@[i])@.len() <= u32::MAX
}

pub open spec fn status_pair(code: int) -> Pair {
    (text("grpc-status"), decimal(code))
}

pub open spec fn message_pair(message: Seq<u8>) -> Pair {
    (text("grpc-message"), message)
}

/// The two headers that report an error.
pub open spec fn error_trailers(e: ErrorView) -> Seq<Pair> {
    seq![status_pair(status_of(e)), message_pair(message_of(e))]
}

/// The headers with which a response opens.
pub open spec fn opening_headers() -> Seq<Pair> {
    seq![(text(":status"), text("200")), (text("content-type"), text("application/grpc"))]
}

/// A response that is nothing but the report of an error.
pub open spec fn trailers_only(e: ErrorView) -> ResponseView {
    ResponseView { headers: opening_headers() + error_trailers(e), parts: Seq::empty() }
}

/// The response to a request that never reached a handler.
pub open spec fn rejected(message: Seq<u8>) -> ResponseView {
    ResponseView {
        headers: seq![(text(":status"), text("500")), status_pair(13), message_pair(message)],
        parts: Seq::empty(),
    }
}

/// The header block that ends a stream.
pub open spec fn end_trailers(end: Result<Seq<Pair>, ErrorView>) -> Seq<Pair> {
    match end {
        Err(e) => error_trailers(e),
        Ok(t) => match headers_of(t) {
            Ok(h) => seq![status_pair(0)] + h,
            Err(e) => error_trailers(e),
        },
    }
}

/// Each message in a frame of its own.
pub open spec fn data_parts(items: Seq<Seq<u8>>) -> Seq<PartView> {
    Seq::new(items.len(), |i: int| PartView::Data(frame_bytes(items[i])))
}

/// The HTTP response that carries a response of encoded messages.
pub open spec fn http_response_of(resp: WireResponse) -> ResponseView {
    match resp {
        WireResponse::Failed(e) => trailers_only(e),
        WireResponse::Opened { initial, items, end } => match headers_of(initial) {
            Err(e) => trailers_only(e),
            Ok(h) => ResponseView {
                headers: opening_headers() + h,
                parts: data_parts(items).push(PartView::LastHeaders(end_trailers(end))),
            },
        },
    }
}

fn header(name: &str, value: Vec<u8>) -> (r: Header)
    ensures
        r.name@ == text(name),
        r.value == value,
{
    Header { name: literal(name), value }
}

fn error_headers(out: &mut Vec<Header>, e: &Error)
    ensures
        headers_view(final(out)@) == headers_view(old(out)@) + error_trailers(e@),
{
    out.push(header("grpc-status", status_text(grpc_status(e))));
    out.push(header("grpc-message", grpc_message(e)));
    assert(headers_view(out@) =~= headers_view(old(out)@) + error_trailers(e@));
}

fn opening() -> (r: Vec<Header>)
    ensures
        headers_view(r@) == opening_headers(),
{
    let mut out: Vec<Header> = Vec::new();
    out.push(header(":status", literal("200")));
    out.push(header("content-type", literal("application/grpc")));
    assert(headers_view(out@) =~= opening_headers());
    out
}

/// Creates the HTTP response for a request that is refused before any
/// handler runs.
pub fn http_response_500(message: &str) -> (r: HttpResponse)
    ensures
        r@ == rejected(text(message)),
{
    let mut headers: Vec<Header> = Vec::new();
    headers.push(header(":status", literal("500")));
    headers.push(header("grpc-status", status_text(13)));
    headers.push(header("grpc-message", literal(message)));
    let r = HttpResponse { headers, parts: Vec::new() };
    assert(r@.headers =~= rejected(text(message)).headers);
    assert(r@.parts =~= rejected(text(message)).parts);
    r
}

fn failure_response(e: &Error) -> (r: HttpResponse)
    ensures
        r@ == trailers_only(e@),
{
    let mut headers = opening();
    error_headers(&mut headers, e);
    let r = HttpResponse { headers, parts: Vec::new() };
    assert(r@.parts =~= trailers_only(e@).parts);
    r
}

fn closing_headers(end: &Result<Metadata, Error>) -> (r: Vec<Header>)
    ensures
        headers_view(r@) == end_trailers(
            match *end {
                Ok(t) => Ok(t@),
                Err(e) => Err(e@),
            },
        ),
{
    let mut out: Vec<Header> = Vec::new();
    assert(headers_view(out@) =~= Seq::<Pair>::empty());
    match end {
        Err(e) => {
            error_headers(&mut out, e);
            assert(headers_view(out@) =~= error_trailers(e@));
        },
        Ok(t) => match t.into_headers() {
            Ok(mut h) => {
                out.push(header("grpc-status", status_text(0)));
                let ghost first = headers_view(out@);
                let ghost rest = headers_view(h@);
                assert(first =~= seq![status_pair(0)]);
                out.append(&mut h);
                assert(headers_view(out@) =~= first + rest);
            },
            Err(e) => {
                error_headers(&mut out, &e);
                assert(headers_view(out@) =~= error_trailers(e@));
            },
        },
    }
    out
}

/// Puts a response of encoded messages on the wire: the opening headers with
/// the initial metadata, one frame for each message, and the header block
/// that ends the stream; or, where there is nothing to open, the report of
/// the error alone.
pub fn http_response(resp: StreamingResponse<Vec<u8>>) -> (r: HttpResponse)
    requires
        frameable(resp),
    ensures
        r@ == http_response_of(wire(resp)),
{
    match resp {
        StreamingResponse::Failed(e) => failure_response(&e),
        StreamingResponse::Opened { initial, items, end } => {
            match initial.into_headers() {
                Err(e) => failure_response(&e),
                Ok(mut h) => {
                    let ghost want = http_response_of(wire(resp));
                    let mut headers = opening();
                    let ghost rest = headers_view(h@);
                    headers.append(&mut h);
                    assert(headers_view(headers@) =~= opening_headers() + rest);
                    let mut parts: Vec<HttpStreamPart> = Vec::new();
                    let mut i: usize = 0;
                    while i < items.len()
                        invariant
                            i <= items@.len(),
                            parts@.len() == i,
                            forall|k: int| 0 <= k < items@.len() ==> (#[trigger] items@[k])@.len() <= u32::MAX,
                            forall|k: int| 0 <= k < i ==> (#[trigger] parts@[k])@ == PartView::Data(frame_bytes(items@[k]@)),
                        decreases items@.len() - i,
                    {
                        let framed = write_grpc_frame_to_vec(items[i].as_slice());
                        parts.push(HttpStreamPart::Data(framed));
                        i += 1;
                    }
                    let last = closing_headers(&end);
                    parts.push(HttpStreamPart::LastHeaders(last));
                    let r = HttpResponse { headers, parts };
                    assert(r@.headers =~= want.headers);
                    assert(r@.parts =~= want.parts);
                    r
                },
            }
        },
    }
}

} // verus!
