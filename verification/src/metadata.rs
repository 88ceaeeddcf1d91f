use base64::Engine;
use vstd::prelude::*;
use crate::error::{Error, ErrorView};
use crate::text::{bytes_eq, copy_range, literal, lower, text, to_lower};

verus! {

/// One header of an HTTP message.
pub struct Header {
    pub name: Vec<u8>,
    pub value: Vec<u8>,
}

/// One entry of metadata: a name and its value as the handler sees it.
pub struct MetadataEntry {
    pub key: Vec<u8>,
    pub value: Vec<u8>,
}

/// The metadata of a call, in order.
pub struct Metadata {
    pub entries: Vec<MetadataEntry>,
}

/// A name with a value: a header on the wire, or an entry of metadata.
pub type Pair = (Seq<u8>, Seq<u8>);

/// Headers as pairs of name and value.
pub open spec fn headers_view(v: Seq<Header>) -> Seq<Pair> {
    Seq::new(v.len(), |i: int| (v[i].name@, v[i].value@))
}

impl View for Metadata {
    type V = Seq<Pair>;

    open spec fn view(&self) -> Seq<Pair> {
        Seq::new(self.entries@.len(), |i: int| (self.entries@[i].key@, self.entries@[i].value@))
    }
}

/// The standard base64 text of `data`, with padding.
pub uninterp spec fn base64_text(data: Seq<u8>) -> Seq<u8>;

/// The bytes that `encoded` stands for in standard base64, with or without
/// padding; `None` where it is no base64.
pub uninterp spec fn base64_bytes(encoded: Seq<u8>) -> Option<Seq<u8>>;

/// Calls `encode` of base64's `STANDARD` engine. The result is the base64
/// text of `data`, and the lenient decoder reads it back as `data`. The
/// engine gives up only where the length of the text overflows `usize`,
/// which four thirds of the length of a slice cannot.
#[verifier::external_body]
fn base64_encode(data: &[u8]) -> (r: Vec<u8>)
    ensures
        r@ == base64_text(data@),
        base64_bytes(r@) == Some(data@),
{
    base64::engine::general_purpose::STANDARD.encode(data).into_bytes()
}

/// Calls `decode` of a base64 `GeneralPurpose` engine over the standard
/// alphabet that accepts padding and its absence alike. The result is what
/// the text stands for, or `None` where the engine refuses it.
#[verifier::external_body]
fn base64_decode(encoded: &[u8]) -> (r: Option<Vec<u8>>)
    ensures
        match r {
            Some(v) => base64_bytes(encoded@) == Some(v@),
            None => base64_bytes(encoded@) is None,
        },
{
    let config = base64::engine::GeneralPurposeConfig::new().with_decode_padding_mode(
        base64::engine::DecodePaddingMode::Indifferent,
    );
    let engine = base64::engine::GeneralPurpose::new(&base64::alphabet::STANDARD, config);
    engine.decode(encoded).ok()
}

/// A pseudo-header: its name starts with a colon.
pub open spec fn is_pseudo(name: Seq<u8>) -> bool {
    name.len() > 0 && name[0] == 58
}

/// A header that belongs to the transport, whatever the case of its letters.
pub open spec fn is_transport(name: Seq<u8>) -> bool {
    let n = lower(name);
    n == text("content-type") || n == text("grpc-status") || n == text("grpc-message") || n
        == text("grpc-encoding") || n == text("te") || n == text("user-agent")
}

/// A name that metadata may not carry.
pub open spec fn is_reserved(name: Seq<u8>) -> bool {
    is_pseudo(name) || is_transport(name)
}

/// A name whose value is raw bytes, sent as base64.
pub open spec fn is_binary(name: Seq<u8>) -> bool {
    let n = lower(name);
    n.len() >= 4 && n.subrange(n.len() - 4, n.len() as int) == text("-bin")
}

pub open spec fn bad_base64_message() -> Seq<u8> {
    text("invalid base64 in a binary header")
}

pub open spec fn reserved_key_message() -> Seq<u8> {
    text("metadata holds a reserved key")
}

/// The metadata that a list of headers carries: reserved headers are left
/// out, binary values are decoded, the order is kept. An error where a
/// binary value is no base64.
pub open spec fn metadata_of(headers: Seq<Pair>) -> Result<Seq<Pair>, ErrorView>
    decreases headers.len(),
{
    if headers.len() == 0 {
        Ok(Seq::empty())
    } else {
        let h = headers.last();
        match metadata_of(headers.drop_last()) {
            Err(e) => Err(e),
            Ok(m) => if is_reserved(h.0) {
                Ok(m)
            } else if is_binary(h.0) {
                match base64_bytes(h.1) {
                    Some(v) => Ok(m.push((h.0, v))),
                    None => Err(ErrorView::Protocol(bad_base64_message())),
                }
            } else {
                Ok(m.push(h))
            },
        }
    }
}

/// The headers that carry a piece of metadata: binary values are encoded,
/// the order is kept. An error where a name is reserved.
pub open spec fn headers_of(m: Seq<Pair>) -> Result<Seq<Pair>, ErrorView>
    decreases m.len(),
{
    if m.len() == 0 {
        Ok(Seq::empty())
    } else {
        let e = m.last();
        match headers_of(m.drop_last()) {
            Err(e) => Err(e),
            Ok(h) => if is_reserved(e.0) {
                Err(ErrorView::InvalidMetadata(reserved_key_message()))
            } else if is_binary(e.0) {
                Ok(h.push((e.0, base64_text(e.1))))
            } else {
                Ok(h.push(e))
            },
        }
    }
}

/// Whether metadata may not carry `name`.
pub fn is_reserved_name(name: &[u8]) -> (r: bool)
    ensures
        r == is_reserved(name@),
{
    if name.len() > 0 && name[0] == 58 {
        return true;
    }
    let n = to_lower(name);
    bytes_eq(n.as_slice(), literal("content-type").as_slice()) || bytes_eq(
        n.as_slice(),
        literal("grpc-status").as_slice(),
    ) || bytes_eq(n.as_slice(), literal("grpc-message").as_slice()) || bytes_eq(
        n.as_slice(),
        literal("grpc-encoding").as_slice(),
    ) || bytes_eq(n.as_slice(), literal("te").as_slice()) || bytes_eq(
        n.as_slice(),
        literal("user-agent").as_slice(),
    )
}

/// Whether the value under `name` is raw bytes.
pub fn is_binary_name(name: &[u8]) -> (r: bool)
    ensures
        r == is_binary(name@),
{
    let n = to_lower(name);
    if n.len() < 4 {
        return false;
    }
    let tail = copy_range(n.as_slice(), n.len() - 4, n.len());
    bytes_eq(tail.as_slice(), literal("-bin").as_slice())
}

impl Metadata {
    /// Metadata without entries.
    pub fn new() -> (r: Metadata)
        ensures
            r@ == Seq::<Pair>::empty(),
    {
        let r = Metadata { entries: Vec::new() };
        assert(r@ =~= Seq::<Pair>::empty());
        r
    }

    /// Adds an entry at the end.
    pub fn add(&mut self, key: Vec<u8>, value: Vec<u8>)
        ensures
            final(self)@ == old(self)@.push((key@, value@)),
    {
        self.entries.push(MetadataEntry { key, value });
        assert(self@ =~= old(self)@.push((key@, value@)));
    }

    /// Reads the metadata out of the headers of a request.
    pub fn from_headers(headers: Vec<Header>) -> (r: Result<Metadata, Error>)
        ensures
            match r {
                Ok(m) => metadata_of(headers_view(headers@)) == Ok::<Seq<Pair>, ErrorView>(m@),
                Err(e) => metadata_of(headers_view(headers@)) == Err::<Seq<Pair>, ErrorView>(e@),
            },
    {
        let ghost all = headers_view(headers@);
        let mut m = Metadata::new();
        let mut i: usize = 0;
        assert(all.take(0) =~= Seq::<Pair>::empty());
        while i < headers.len()
            invariant
                i <= headers@.len(),
                all == headers_view(headers@),
                metadata_of(all.take(i as int)) == Ok::<Seq<Pair>, ErrorView>(m@),
            decreases headers@.len() - i,
        {
            let h = &headers[i];
            proof {
                assert(all.take(i + 1).drop_last() =~= all.take(i as int));
                assert(all.take(i + 1).last() == (h.name@, h.value@));
            }
            if is_reserved_name(h.name.as_slice()) {
            } else if is_binary_name(h.name.as_slice()) {
                match base64_decode(h.value.as_slice()) {
                    Some(v) => {
                        m.add(copy_range(h.name.as_slice(), 0, h.name.len()), v);
                        assert(h.name@.subrange(0, h.name@.len() as int) =~= h.name@);
                    },
                    None => {
                        let e = Error::Protocol(literal("invalid base64 in a binary header"));
                        proof {
                            lemma_metadata_error_stays(all, i + 1);
                        }
                        return Err(e);
                    },
                }
            } else {
                m.add(
                    copy_range(h.name.as_slice(), 0, h.name.len()),
                    copy_range(h.value.as_slice(), 0, h.value.len()),
                );
                assert(h.name@.subrange(0, h.name@.len() as int) =~= h.name@);
                assert(h.value@.subrange(0, h.value@.len() as int) =~= h.value@);
            }
            i += 1;
        }
        assert(all.take(headers@.len() as int) =~= all);
        Ok(m)
    }

    /// Writes the metadata as headers of a response. The headers read back
    /// as this metadata.
    pub fn into_headers(&self) -> (r: Result<Vec<Header>, Error>)
        ensures
            match r {
                Ok(h) => headers_of(self@) == Ok::<Seq<Pair>, ErrorView>(headers_view(h@))
                    && metadata_of(headers_view(h@)) == Ok::<Seq<Pair>, ErrorView>(self@),
                Err(e) => headers_of(self@) == Err::<Seq<Pair>, ErrorView>(e@),
            },
    {
        let ghost all = self@;
        let mut out: Vec<Header> = Vec::new();
        let mut i: usize = 0;
        assert(all.take(0) =~= Seq::<Pair>::empty());
        assert(headers_view(out@) =~= Seq::<Pair>::empty());
        while i < self.entries.len()
            invariant
                i <= self.entries@.len(),
                all == self@,
                headers_of(all.take(i as int)) == Ok::<Seq<Pair>, ErrorView>(headers_view(out@)),
                metadata_of(headers_view(out@)) == Ok::<Seq<Pair>, ErrorView>(all.take(i as int)),
            decreases self.entries@.len() - i,
        {
            let e = &self.entries[i];
            let ghost before = headers_view(out@);
            proof {
                assert(all.take(i + 1).drop_last() =~= all.take(i as int));
                assert(all.take(i + 1).last() == (e.key@, e.value@));
            }
            if is_reserved_name(e.key.as_slice()) {
                let err = Error::InvalidMetadata(literal("metadata holds a reserved key"));
                proof {
                    lemma_headers_error_stays(all, i + 1);
                }
                return Err(err);
            }
            let name = copy_range(e.key.as_slice(), 0, e.key.len());
            assert(e.key@.subrange(0, e.key@.len() as int) =~= e.key@);
            let value = if is_binary_name(e.key.as_slice()) {
                base64_encode(e.value.as_slice())
            } else {
                assert(e.value@.subrange(0, e.value@.len() as int) =~= e.value@);
                copy_range(e.value.as_slice(), 0, e.value.len())
            };
            out.push(Header { name, value });
            proof {
                let after = headers_view(out@);
                assert(after =~= before.push((name@, value@)));
                assert(after.drop_last() =~= before);
                assert(all.take(i + 1) =~= all.take(i as int).push((e.key@, e.value@)));
            }
            i += 1;
        }
        assert(all.take(self.entries@.len() as int) =~= all);
        Ok(out)
    }
}

/// An error in the first `k` headers is the error of them all.
pub proof fn lemma_metadata_error_stays(headers: Seq<Pair>, k: int)
    requires
        0 <= k <= headers.len(),
        metadata_of(headers.take(k)) is Err,
    ensures
        metadata_of(headers) == metadata_of(headers.take(k)),
    decreases headers.len() - k,
{
    if k == headers.len() {
        assert(headers.take(k) =~= headers);
    } else {
        assert(headers.take(k + 1).drop_last() =~= headers.take(k));
        lemma_metadata_error_stays(headers, k + 1);
    }
}

/// An error in the first `k` entries is the error of them all.
pub proof fn lemma_headers_error_stays(m: Seq<Pair>, k: int)
    requires
        0 <= k <= m.len(),
        headers_of(m.take(k)) is Err,
    ensures
        headers_of(m) == headers_of(m.take(k)),
    decreases m.len() - k,
{
    if k == m.len() {
        assert(m.take(k) =~= m);
    } else {
        assert(m.take(k + 1).drop_last() =~= m.take(k));
        lemma_headers_error_stays(m, k + 1);
    }
}

} // verus!
