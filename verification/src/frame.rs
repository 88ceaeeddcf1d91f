use vstd::prelude::*;
use crate::error::{Error, ErrorView};
use crate::stream::{error_view, StreamingRequest};
use crate::text::{append_bytes, copy_range, literal, text};

verus! {

/// Length of the prefix of a frame: the compression flag and the length.
pub const FRAME_HEADER_LEN: usize = 5;

/// The longest payload that the decoder accepts.
pub const MAX_FRAME_LEN: usize = 4194304;

/// The four bytes that carry `n`, most significant first.
pub open spec fn be32(n: nat) -> Seq<u8> {
    seq![
        (n / 16777216 % 256) as u8,
        (n / 65536 % 256) as u8,
        (n / 256 % 256) as u8,
        (n % 256) as u8,
    ]
}

/// The payload length that the prefix of `buf` declares.
pub open spec fn declared_len(buf: Seq<u8>) -> nat
    recommends
        buf.len() >= 5,
{
    (buf[1] as nat) * 16777216 + (buf[2] as nat) * 65536 + (buf[3] as nat) * 256 + (buf[4] as nat)
}

/// One message on the wire: flag 0, the length, the payload.
pub open spec fn frame_bytes(payload: Seq<u8>) -> Seq<u8> {
    seq![0u8] + be32(payload.len()) + payload
}

/// Messages on the wire, one after the other.
pub open spec fn frames_bytes(payloads: Seq<Seq<u8>>) -> Seq<u8>
    decreases payloads.len(),
{
    if payloads.len() == 0 {
        Seq::empty()
    } else {
        frame_bytes(payloads[0]) + frames_bytes(payloads.skip(1))
    }
}

/// The chunks of a body joined in the order of their arrival.
pub open spec fn joined(chunks: Seq<Seq<u8>>) -> Seq<u8>
    decreases chunks.len(),
{
    if chunks.len() == 0 {
        Seq::empty()
    } else {
        joined(chunks.drop_last()) + chunks.last()
    }
}

/// The payloads held by a list of buffers.
pub open spec fn payloads_of(v: Seq<Vec<u8>>) -> Seq<Seq<u8>> {
    Seq::new(v.len(), |i: int| v[i]@)
}

pub open spec fn compressed_message() -> Seq<u8> {
    text("compressed frames are not supported")
}

pub open spec fn too_long_message() -> Seq<u8> {
    text("frame is longer than the limit")
}

pub open spec fn truncated_message() -> Seq<u8> {
    text("input ended inside a frame")
}

/// What a run of input bytes holds: the complete frames at its start, the
/// bytes after them, and the reason why no further frame can ever follow.
pub struct Scan {
    pub frames: Seq<Seq<u8>>,
    pub rest: Seq<u8>,
    pub fault: Option<ErrorView>,
}

/// Peels complete frames off the front of `buf` for as long as there are any.
pub open spec fn scan(buf: Seq<u8>) -> Scan
    decreases buf.len(),
{
    if buf.len() == 0 {
        Scan { frames: Seq::empty(), rest: buf, fault: None }
    } else if buf[0] != 0 {
        Scan { frames: Seq::empty(), rest: buf, fault: Some(ErrorView::Protocol(compressed_message())) }
    } else if buf.len() < 5 {
        Scan { frames: Seq::empty(), rest: buf, fault: None }
    } else if declared_len(buf) > MAX_FRAME_LEN {
        Scan { frames: Seq::empty(), rest: buf, fault: Some(ErrorView::Protocol(too_long_message())) }
    } else if buf.len() < 5 + declared_len(buf) {
        Scan { frames: Seq::empty(), rest: buf, fault: None }
    } else {
        let n = declared_len(buf) as int;
        let tail = scan(buf.skip(5 + n));
        Scan { frames: seq![buf.subrange(5, 5 + n)] + tail.frames, rest: tail.rest, fault: tail.fault }
    }
}

/// The error with which a whole body ends, if it ends with one: the fault
/// found in it, or a frame left unfinished at the end of input.
pub open spec fn stream_error(body: Seq<u8>) -> Option<ErrorView> {
    let s = scan(body);
    if s.fault is Some {
        s.fault
    } else if s.rest.len() > 0 {
        Some(ErrorView::Protocol(truncated_message()))
    } else {
        None
    }
}

/// Encodes one message for the wire.
pub fn write_grpc_frame_to_vec(payload: &[u8]) -> (r: Vec<u8>)
    requires
        payload@.len() <= u32::MAX,
    ensures
        r@ == frame_bytes(payload@),
{
    let n: usize = payload.len();
    let mut out: Vec<u8> = Vec::new();
    out.push(0u8);
    out.push((n / 16777216 % 256) as u8);
    out.push((n / 65536 % 256) as u8);
    out.push((n / 256 % 256) as u8);
    out.push((n % 256) as u8);
    assert(out@ =~= seq![0u8] + be32(n as nat));
    append_bytes(&mut out, payload);
    out
}

/// The outcome of looking for one frame at the start of a buffer.
pub enum Parsed {
    /// A whole frame: its payload, and how many bytes it took.
    Frame(Vec<u8>, usize),
    /// More input is needed.
    Incomplete,
    /// No frame can start here.
    Invalid(Error),
}

/// Looks for one frame at `buf[pos..]`.
pub fn parse_grpc_frame(buf: &[u8], pos: usize) -> (r: Parsed)
    requires
        pos <= buf@.len(),
    ensures
        ({
            let here = buf@.skip(pos as int);
            let s = scan(here);
            match r {
                Parsed::Frame(payload, used) => {
                    &&& here.len() >= 5
                    &&& here[0] == 0
                    &&& declared_len(here) <= MAX_FRAME_LEN
                    &&& used == 5 + declared_len(here)
                    &&& used <= here.len()
                    &&& payload@ == here.subrange(5, used as int)
                    &&& s.frames == seq![payload@] + scan(here.skip(used as int)).frames
                    &&& s.rest == scan(here.skip(used as int)).rest
                    &&& s.fault == scan(here.skip(used as int)).fault
                },
                Parsed::Incomplete => s.frames.len() == 0 && s.rest == here && s.fault is None,
                Parsed::Invalid(e) => s.frames.len() == 0 && s.rest == here && s.fault == Some(e@),
            }
        }),
{
    let ghost here = buf@.skip(pos as int);
    let avail: usize = buf.len() - pos;
    if avail == 0 {
        return Parsed::Incomplete;
    }
    if buf[pos] != 0 {
        return Parsed::Invalid(Error::Protocol(literal("compressed frames are not supported")));
    }
    if avail < 5 {
        return Parsed::Incomplete;
    }
    let n: usize = (buf[pos + 1] as usize) * 16777216 + (buf[pos + 2] as usize) * 65536 + (buf[pos
        + 3] as usize) * 256 + (buf[pos + 4] as usize);
    assert(n == declared_len(here));
    if n > MAX_FRAME_LEN {
        return Parsed::Invalid(Error::Protocol(literal("frame is longer than the limit")));
    }
    if avail - 5 < n {
        return Parsed::Incomplete;
    }
    let payload = copy_range(buf, pos + 5, pos + 5 + n);
    assert(payload@ =~= here.subrange(5, 5 + n));
    Parsed::Frame(payload, 5 + n)
}


/// Whatever follows `a`, the frames that `a` holds come out first, and the
/// scan goes on with what `a` left over.
pub proof fn lemma_scan_append(a: Seq<u8>, b: Seq<u8>)
    ensures
        scan(a + b).frames == scan(a).frames + scan(scan(a).rest + b).frames,
        scan(a + b).rest == scan(scan(a).rest + b).rest,
        scan(a + b).fault == scan(scan(a).rest + b).fault,
    decreases a.len(),
{
    let ab = a + b;
    if a.len() == 0 {
        assert(scan(a).rest + b =~= ab);
        assert(scan(a).frames + scan(ab).frames =~= scan(ab).frames);
    } else if a[0] != 0 || a.len() < 5 || declared_len(a) > MAX_FRAME_LEN || a.len() < 5
        + declared_len(a) {
        assert(scan(a).rest == a);
        assert(scan(a).frames + scan(ab).frames =~= scan(ab).frames);
    } else {
        let n = declared_len(a) as int;
        assert(declared_len(ab) == declared_len(a));
        assert(ab.skip(5 + n) =~= a.skip(5 + n) + b);
        assert(ab.subrange(5, 5 + n) =~= a.subrange(5, 5 + n));
        lemma_scan_append(a.skip(5 + n), b);
        let t = scan(a.skip(5 + n));
        assert(scan(ab).frames =~= scan(a).frames + scan(t.rest + b).frames);
    }
}

/// Once a fault is found, nothing that follows changes the frames before it
/// or the fault.
pub proof fn lemma_fault_is_final(a: Seq<u8>, b: Seq<u8>)
    requires
        scan(a).fault is Some,
    ensures
        scan(a + b).frames == scan(a).frames,
        scan(a + b).fault == scan(a).fault,
    decreases a.len(),
{
    let ab = a + b;
    if a.len() == 0 {
    } else if a[0] != 0 {
    } else if a.len() < 5 {
    } else if declared_len(a) > MAX_FRAME_LEN {
        assert(declared_len(ab) == declared_len(a));
    } else if a.len() < 5 + declared_len(a) {
    } else {
        let n = declared_len(a) as int;
        assert(declared_len(ab) == declared_len(a));
        assert(ab.skip(5 + n) =~= a.skip(5 + n) + b);
        assert(ab.subrange(5, 5 + n) =~= a.subrange(5, 5 + n));
        lemma_fault_is_final(a.skip(5 + n), b);
    }
}

/// Decoding the encoding of one message gives that message back.
pub proof fn lemma_frame_round_trip(payload: Seq<u8>)
    requires
        payload.len() <= MAX_FRAME_LEN,
    ensures
        scan(frame_bytes(payload)).frames == seq![payload],
        scan(frame_bytes(payload)).rest == Seq::<u8>::empty(),
        scan(frame_bytes(payload)).fault is None,
        stream_error(frame_bytes(payload)) is None,
{
    lemma_frames_round_trip(seq![payload]);
    assert(seq![payload].skip(1) =~= Seq::<Seq<u8>>::empty());
    assert(frames_bytes(seq![payload].skip(1)) =~= Seq::<u8>::empty());
    assert(frames_bytes(seq![payload]) =~= frame_bytes(payload));
}

/// Decoding a run of encoded messages gives the messages back, in order.
pub proof fn lemma_frames_round_trip(payloads: Seq<Seq<u8>>)
    requires
        forall|i: int| 0 <= i < payloads.len() ==> (#[trigger] payloads[i]).len() <= MAX_FRAME_LEN,
    ensures
        scan(frames_bytes(payloads)).frames == payloads,
        scan(frames_bytes(payloads)).rest == Seq::<u8>::empty(),
        scan(frames_bytes(payloads)).fault is None,
        stream_error(frames_bytes(payloads)) is None,
    decreases payloads.len(),
{
    if payloads.len() == 0 {
        assert(scan(frames_bytes(payloads)).frames =~= payloads);
    } else {
        let p = payloads[0];
        let n = p.len() as int;
        let tail = frames_bytes(payloads.skip(1));
        let all = frames_bytes(payloads);
        assert(all == frame_bytes(p) + tail);
        assert(all.len() >= 5 + n);
        assert(all[0] == 0);
        assert(declared_len(all) == n) by {
            assert(all[1] == (n / 16777216 % 256) as u8);
            assert(all[2] == (n / 65536 % 256) as u8);
            assert(all[3] == (n / 256 % 256) as u8);
            assert(all[4] == (n % 256) as u8);
        }
        assert(all.subrange(5, 5 + n) =~= p);
        assert(all.skip(5 + n) =~= tail);
        assert forall|i: int| 0 <= i < payloads.skip(1).len() implies (#[trigger] payloads.skip(
            1,
        )[i]).len() <= MAX_FRAME_LEN by {
            assert(payloads.skip(1)[i] == payloads[i + 1]);
        }
        lemma_frames_round_trip(payloads.skip(1));
        assert(scan(all).frames =~= payloads);
    }
}

/// However a run of encoded messages is cut into chunks, scanning the chunks
/// joined gives the messages back, in order, and ends without an error.
pub proof fn lemma_split_round_trip(payloads: Seq<Seq<u8>>, chunks: Seq<Seq<u8>>)
    requires
        forall|i: int| 0 <= i < payloads.len() ==> (#[trigger] payloads[i]).len() <= MAX_FRAME_LEN,
        joined(chunks) == frames_bytes(payloads),
    ensures
        scan(joined(chunks)).frames == payloads,
        stream_error(joined(chunks)) is None,
{
    lemma_frames_round_trip(payloads);
}

/// Turns the chunks of a body, as they arrive, into payloads.
pub struct FrameDecoder {
    buf: Vec<u8>,
}

impl FrameDecoder {
    /// The bytes received that belong to no complete frame yet.
    pub closed spec fn pending(&self) -> Seq<u8> {
        self.buf@
    }

    /// A decoder that has seen no input.
    pub fn new() -> (r: Self)
        ensures
            r.pending() == Seq::<u8>::empty(),
    {
        FrameDecoder { buf: Vec::new() }
    }

    /// Takes the next chunk. Returns the payloads that are complete with it,
    /// and the fault if no further frame can be read. What is left over is
    /// kept for the next chunk.
    pub fn feed(&mut self, chunk: &[u8]) -> (r: (Vec<Vec<u8>>, Option<Error>))
        ensures
            payloads_of(r.0@) == scan(old(self).pending() + chunk@).frames,
            final(self).pending() == scan(old(self).pending() + chunk@).rest,
            error_view(r.1) == scan(old(self).pending() + chunk@).fault,
    {
        append_bytes(&mut self.buf, chunk);
        let ghost all = self.buf@;
        let total: usize = self.buf.len();
        let mut out: Vec<Vec<u8>> = Vec::new();
        let mut fault: Option<Error> = None;
        let mut pos: usize = 0;
        let mut done: bool = false;
        assert(all.skip(0) =~= all);
        assert(payloads_of(out@) + scan(all).frames =~= scan(all).frames);
        while !done
            invariant
                self.buf@ == all,
                pos <= all.len() == total,
                scan(all).frames == payloads_of(out@) + scan(all.skip(pos as int)).frames,
                scan(all).rest == scan(all.skip(pos as int)).rest,
                scan(all).fault == scan(all.skip(pos as int)).fault,
                !done ==> fault is None,
                done ==> scan(all.skip(pos as int)).frames.len() == 0,
                done ==> scan(all.skip(pos as int)).rest == all.skip(pos as int),
                done ==> scan(all.skip(pos as int)).fault == error_view(fault),
            decreases all.len() - pos + (if done { 0int } else { 1int }),
        {
            match parse_grpc_frame(self.buf.as_slice(), pos) {
                Parsed::Frame(payload, used) => {
                    let ghost before = payloads_of(out@);
                    assert(all.skip(pos as int).len() == all.len() - pos);
                    assert(all.skip(pos as int).skip(used as int) =~= all.skip(pos + used));
                    out.push(payload);
                    assert(payloads_of(out@) =~= before + seq![payload@]);
                    assert(before + (seq![payload@] + scan(all.skip(pos + used)).frames) =~= (before
                        + seq![payload@]) + scan(all.skip(pos + used)).frames);
                    pos = pos + used;
                },
                Parsed::Incomplete => {
                    done = true;
                },
                Parsed::Invalid(e) => {
                    fault = Some(e);
                    done = true;
                },
            }
        }
        assert(payloads_of(out@) =~= scan(all).frames);
        let rest = copy_range(self.buf.as_slice(), pos, total);
        self.buf = rest;
        (out, fault)
    }

    /// Ends the input: an error if a frame was left unfinished.
    pub fn finish(&self) -> (r: Result<(), Error>)
        ensures
            self.pending().len() == 0 <==> r is Ok,
            r matches Err(e) ==> e@ == ErrorView::Protocol(truncated_message()),
    {
        if self.buf.len() == 0 {
            Ok(())
        } else {
            Err(Error::Protocol(literal("input ended inside a frame")))
        }
    }
}

/// Decodes a whole body that arrived as `chunks`: the payloads of the frames
/// in it, and the error with which it ends, if any. Only the bytes count, not
/// where the chunks are cut.
pub fn decode_chunks(chunks: &Vec<Vec<u8>>) -> (r: StreamingRequest<Vec<u8>>)
    ensures
        payloads_of(r.items@) == scan(joined(payloads_of(chunks@))).frames,
        error_view(r.error) == stream_error(joined(payloads_of(chunks@))),
{
    let ghost parts = payloads_of(chunks@);
    let mut decoder = FrameDecoder::new();
    let mut items: Vec<Vec<u8>> = Vec::new();
    let mut fault: Option<Error> = None;
    let mut i: usize = 0;
    assert(parts.take(0) =~= Seq::<Seq<u8>>::empty());
    assert(payloads_of(items@) =~= scan(joined(parts.take(0))).frames);
    while i < chunks.len()
        invariant
            i <= chunks@.len(),
            parts == payloads_of(chunks@),
            payloads_of(items@) == scan(joined(parts.take(i as int))).frames,
            error_view(fault) == scan(joined(parts.take(i as int))).fault,
            fault is None ==> decoder.pending() == scan(joined(parts.take(i as int))).rest,
        decreases chunks@.len() - i,
    {
        let ghost seen = joined(parts.take(i as int));
        proof {
            assert(parts.take(i + 1).drop_last() =~= parts.take(i as int));
            assert(parts.take(i + 1).last() == chunks@[i as int]@);
            assert(joined(parts.take(i + 1)) == seen + chunks@[i as int]@);
        }
        if fault.is_none() {
            let ghost before = payloads_of(items@);
            let (mut found, bad) = decoder.feed(chunks[i].as_slice());
            proof {
                lemma_scan_append(seen, chunks@[i as int]@);
            }
            let ghost found_view = payloads_of(found@);
            items.append(&mut found);
            assert(payloads_of(items@) =~= before + found_view);
            fault = bad;
        } else {
            proof {
                lemma_fault_is_final(seen, chunks@[i as int]@);
            }
        }
        i += 1;
    }
    assert(parts.take(chunks@.len() as int) =~= parts);
    if fault.is_none() {
        match decoder.finish() {
            Ok(()) => {},
            Err(e) => {
                fault = Some(e);
            },
        }
    }
    StreamingRequest { items, error: fault }
}

} // verus!
