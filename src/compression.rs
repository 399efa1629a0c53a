//! Payload compression for the wire: gzip for large payloads, detected on the
//! receiving side by the two gzip magic bytes.

use std::io::Write;
use flate2::Compression;
use flate2::write::{GzDecoder, GzEncoder};
use vstd::prelude::*;
use vstd::slice::slice_to_vec;

verus! {

/// Payloads longer than this many bytes are compressed before sending.
pub const COMPRESSION_THRESHOLD: usize = 100;

/// First byte of every gzip stream.
pub const GZIP_MAGIC_0: u8 = 0x1f;

/// Second byte of every gzip stream.
pub const GZIP_MAGIC_1: u8 = 0x8b;

/// The gzip stream that flate2's encoder produces for `data` at the fast
/// level with its default header.
pub uninterp spec fn gzip_of(data: Seq<u8>) -> Seq<u8>;

/// What flate2's gzip decoder yields for `data`: the decompressed bytes, or
/// `None` where it reports an error.
pub uninterp spec fn gunzip_of(data: Seq<u8>) -> Option<Seq<u8>>;

/// Relies on `flate2::write::GzEncoder::new(_, Compression::fast())` with
/// `write_all` and `finish`: the stream depends on the input alone (zero
/// mtime, operating-system byte 255), and its header opens with 0x1f 0x8b,
/// with 10 header bytes and an 8-byte trailer around the deflate data.
/// Written into a `Vec`, neither call can fail: the header, the deflate
/// output and the trailer all go to `Vec::write`, which never errs.
#[verifier::external_body]
fn gzip_encode(data: &[u8]) -> (r: Vec<u8>)
    ensures
        r@ == gzip_of(data@),
        r@.len() >= 18 && r@[0] == GZIP_MAGIC_0 && r@[1] == GZIP_MAGIC_1,
{
    let mut encoder = GzEncoder::new(Vec::new(), Compression::fast());
    encoder.write_all(data).unwrap();
    encoder.finish().unwrap()
}

/// Relies on `flate2::write::GzDecoder` with `write_all` and `finish`: the
/// outcome depends on the input alone, and a stream that `GzEncoder` made
/// from some bytes decodes to exactly those bytes.
#[verifier::external_body]
fn gzip_decode(data: &[u8]) -> (r: Option<Vec<u8>>)
    ensures
        gunzip_of(data@) == (match r {
            Some(v) => Some(v@),
            None => None,
        }),
        forall|x: Seq<u8>| #[trigger] gzip_of(x) == data@ ==> r is Some && r.unwrap()@ == x,
{
    let mut decoder = GzDecoder::new(Vec::new());
    if decoder.write_all(data).is_err() {
        return None;
    }
    decoder.finish().ok()
}

/// Whether a received payload is taken for a gzip stream: longer than four
/// bytes and opening with the gzip magic bytes.
pub open spec fn looks_compressed(data: Seq<u8>) -> bool {
    data.len() > 4 && data[0] == GZIP_MAGIC_0 && data[1] == GZIP_MAGIC_1
}

/// What [`decompress`] returns for `data`.
pub open spec fn decompressed(data: Seq<u8>) -> Seq<u8> {
    if looks_compressed(data) {
        match gunzip_of(data) {
            Some(v) => v,
            None => data,
        }
    } else {
        data
    }
}

/// `sent` is what [`compress`] hands over for `data`: the payload itself
/// up to [`COMPRESSION_THRESHOLD`] bytes, its gzip stream beyond.
pub open spec fn is_compression_of(data: Seq<u8>, sent: Seq<u8>) -> bool {
    if data.len() <= COMPRESSION_THRESHOLD {
        sent == data
    } else {
        sent == gzip_of(data) && looks_compressed(sent)
    }
}

/// `out` is what [`decompress`] gives for `data`; where `data` is the gzip
/// stream of some payload, that is the payload.
pub open spec fn is_decompression_of(data: Seq<u8>, out: Seq<u8>) -> bool {
    &&& out == decompressed(data)
    &&& forall|x: Seq<u8>| #[trigger] gzip_of(x) == data && looks_compressed(data) ==> out == x
}

/// Compresses `data` when it is longer than [`COMPRESSION_THRESHOLD`] bytes
/// and hands it back unchanged otherwise.
pub fn compress(data: &[u8]) -> (r: Vec<u8>)
    ensures
        is_compression_of(data@, r@),
{
    if data.len() > COMPRESSION_THRESHOLD {
        gzip_encode(data)
    } else {
        slice_to_vec(data)
    }
}

/// Decompresses a received payload that opens with the gzip magic bytes;
/// any other payload, and one that fails to decode, comes back unchanged.
pub fn decompress(data: &[u8]) -> (r: Vec<u8>)
    ensures
        is_decompression_of(data@, r@),
{
    if data.len() > 4 && data[0] == GZIP_MAGIC_0 && data[1] == GZIP_MAGIC_1 {
        match gzip_decode(data) {
            Some(v) => v,
            None => slice_to_vec(data),
        }
    } else {
        slice_to_vec(data)
    }
}

/// Decompressing what [`compress`] produced gives the payload back,
/// for every payload but a short one (at most [`COMPRESSION_THRESHOLD`]
/// bytes) that itself looks like a gzip stream: such a payload is sent raw
/// and taken for compressed data on receipt.
pub proof fn lemma_compress_round_trip(data: Seq<u8>, sent: Seq<u8>, received: Seq<u8>)
    requires
        !(data.len() <= COMPRESSION_THRESHOLD && looks_compressed(data)),
        is_compression_of(data, sent),
        is_decompression_of(sent, received),
    ensures
        received == data,
{
    if data.len() > COMPRESSION_THRESHOLD {
        assert(gzip_of(data) == sent && looks_compressed(sent));
    }
}

} // verus!
