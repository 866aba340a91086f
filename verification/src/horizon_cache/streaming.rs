//! Streaming and compression of Horizon query responses.
//!
//! The compression ratio, a floating-point value, is derived by callers
//! from the two sizes.

use vstd::prelude::*;
use flate2::read::GzDecoder;
use flate2::write::GzEncoder;
use flate2::Compression;
use std::io::{Read, Write};
use crate::text::{owned, str_eq};

verus! {

/// The gzip stream `flate2` writes for `data` at its fast level.
pub uninterp spec fn gzip_fast(data: Seq<u8>) -> Seq<u8>;

/// What `flate2`'s `GzDecoder` reads from a byte string; none when reading
/// fails.
pub uninterp spec fn gunzip(data: Seq<u8>) -> Option<Seq<u8>>;

/// `GzEncoder` at `Compression::fast()` over a vector, fed `data` and
/// finished. Decoding the stream gives `data` back.
#[verifier::external_body]
fn gzip_encode(data: &[u8]) -> (r: Vec<u8>)
    ensures
        r@ == gzip_fast(data@),
        gunzip(r@) == Some(data@),
{
    let mut encoder = GzEncoder::new(Vec::new(), Compression::fast());
    encoder.write_all(data).unwrap();
    encoder.finish().unwrap()
}

/// `GzDecoder` over `data`, read to the end; none when reading fails.
#[verifier::external_body]
fn gzip_decode(data: &[u8]) -> (r: Option<Vec<u8>>)
    ensures
        match r {
            Some(v) => gunzip(data@) == Some(v@),
            None => gunzip(data@).is_none(),
        },
{
    let mut decoder = GzDecoder::new(data);
    let mut out = Vec::new();
    match decoder.read_to_end(&mut out) {
        Ok(_) => Some(out),
        Err(_) => None,
    }
}

/// A response as delivered: plain (`identity`) or gzip-compressed.
#[derive(Debug, Clone, PartialEq, Eq)]
pub struct CompressedResponse {
    pub original_size: usize,
    pub compressed_size: usize,
    pub data: Vec<u8>,
    pub encoding: String,
}

/// What a response decodes to: its data when plain, the decoded stream
/// when compressed; none when that stream does not decode.
pub open spec fn decoded(r: CompressedResponse) -> Option<Seq<u8>> {
    if r.encoding@ == "identity"@ { Some(r.data@) } else { gunzip(r.data@) }
}

/// Streams query responses, compressing them when enabled.
pub struct ResponseStreamer {
    compression_enabled: bool,
}

impl ResponseStreamer {
    /// Whether responses are compressed.
    pub closed spec fn compresses(&self) -> bool {
        self.compression_enabled
    }

    /// A streamer that compresses when `compression_enabled`.
    pub fn new(compression_enabled: bool) -> (r: Self)
        ensures
            r.compresses() == compression_enabled,
    {
        ResponseStreamer { compression_enabled }
    }

    /// Whether responses are compressed.
    pub fn compression_enabled(&self) -> (r: bool)
        ensures
            r == self.compresses(),
    {
        self.compression_enabled
    }

    /// Splits `data` into consecutive chunks of `chunk_size` bytes (at least
    /// one), the last chunk holding what remains: the chunks, in order, make
    /// up `data` again; each but the last is full and none is empty.
    pub fn chunk(data: &[u8], chunk_size: usize) -> (r: Vec<Vec<u8>>)
        ensures
            ({
                let c: int = if chunk_size == 0 { 1 } else { chunk_size as int };
                &&& r.len() == (data.len() + c - 1) / c
                &&& forall|j: int| 0 <= j < r.len() ==> #[trigger] r@[j]@ == data@.subrange(
                    j * c, if (j + 1) * c <= data.len() { (j + 1) * c } else { data.len() as int })
                &&& r@.map_values(|v: Vec<u8>| v@).flatten() == data@
                &&& forall|j: int| 0 <= j < r.len() ==> 1 <= #[trigger] r@[j]@.len() <= c
                &&& forall|j: int| 0 <= j < r.len() - 1 ==> #[trigger] r@[j]@.len() == c
            }),
    {
        let c: usize = if chunk_size == 0 { 1 } else { chunk_size };
        let mut r: Vec<Vec<u8>> = Vec::new();
        let mut pos: usize = 0;
        proof {
            assert(r@.map_values(|v: Vec<u8>| v@) =~= Seq::<Seq<u8>>::empty());
            assert(data@.subrange(0, 0) =~= Seq::<u8>::empty());
            let ci = c as int;
            assert(0 * ci == 0) by (nonlinear_arith);
            assert((0 + ci - 1) / ci == 0) by (nonlinear_arith) requires ci >= 1;
        }
        while pos < data.len()
            invariant
                c >= 1,
                c as int == (if chunk_size == 0 { 1 } else { chunk_size as int }),
                pos <= data.len(),
                pos as int == r.len() * c || pos == data.len(),
                pos == data.len() ==> r.len() == (data.len() + c - 1) / c as int,
                pos < data.len() ==> pos as int == r.len() * c,
                forall|j: int| 0 <= j < r.len() ==> #[trigger] r@[j]@ == data@.subrange(
                    j * c, if (j + 1) * c <= data.len() { (j + 1) * c } else { data.len() as int }),
                r@.map_values(|v: Vec<u8>| v@).flatten() == data@.subrange(0, pos as int),
                forall|j: int| 0 <= j < r.len() ==> 1 <= #[trigger] r@[j]@.len() <= c,
                forall|j: int| 0 <= j < r.len() - 1 ==> #[trigger] r@[j]@.len() == c,
                pos < data.len() ==> forall|j: int| 0 <= j < r.len() ==> #[trigger] r@[j]@.len() == c,
            decreases data.len() - pos,
        {
            let end: usize = if data.len() - pos > c { pos + c } else { data.len() };
            let mut piece: Vec<u8> = Vec::new();
            let mut k: usize = pos;
            while k < end
                invariant
                    pos <= k <= end <= data.len(),
                    piece@ == data@.subrange(pos as int, k as int),
                decreases end - k,
            {
                piece.push(data[k]);
                k += 1;
                assert(piece@ =~= data@.subrange(pos as int, k as int));
            }
            let ghost n = r.len() as int;
            proof {
                assert((n + 1) * c == n * c + c) by (nonlinear_arith);
                if end == data.len() {
                    assert(data.len() - pos <= c);
                    let len = data.len() as int;
                    let ci = c as int;
                    assert((len + ci - 1) / ci == n + 1) by (nonlinear_arith)
                        requires pos as int == n * ci, len - pos <= ci, len > pos, ci >= 1;
                }
            }
            let ghost flat0 = r@.map_values(|v: Vec<u8>| v@);
            let ghost pv = piece@;
            r.push(piece);
            proof {
                assert(r@.map_values(|v: Vec<u8>| v@) =~= flat0.push(pv));
                flat0.lemma_flatten_push(pv);
                assert(data@.subrange(0, pos as int) + data@.subrange(pos as int, end as int)
                    =~= data@.subrange(0, end as int));
            }
            pos = end;
        }
        proof {
            assert(data@.subrange(0, data.len() as int) =~= data@);
            if data.len() == 0 {
                let ci = c as int;
                assert((0 + ci - 1) / ci == 0) by (nonlinear_arith) requires ci >= 1;
            }
        }
        r
    }
}


impl ResponseStreamer {
    /// The response for `data`: plain when compression is off or `data` is
    /// shorter than 128 bytes, else gzip-compressed at the fast level.
    /// Either way it decodes to `data`.
    pub fn compress(&self, data: &[u8]) -> (r: CompressedResponse)
        ensures
            r.original_size == data@.len(),
            r.compressed_size == r.data@.len(),
            (!self.compresses() || data@.len() < 128) ==> r.encoding@ == "identity"@ && r.data@ == data@,
            (self.compresses() && data@.len() >= 128) ==> r.encoding@ == "gzip"@ && r.data@ == gzip_fast(data@),
            decoded(r) == Some(data@),
    {
        if !self.compression_enabled || data.len() < 128 {
            let mut v: Vec<u8> = Vec::new();
            let mut i: usize = 0;
            while i < data.len()
                invariant
                    i <= data@.len(),
                    v@ == data@.take(i as int),
                decreases data@.len() - i,
            {
                v.push(data[i]);
                i += 1;
                assert(v@ =~= data@.take(i as int));
            }
            assert(v@ =~= data@);
            let n = v.len();
            let e = owned("identity");
            return CompressedResponse { original_size: data.len(), compressed_size: n, data: v, encoding: e };
        }
        let compressed = gzip_encode(data);
        let n = compressed.len();
        let e = owned("gzip");
        proof {
            reveal_strlit("gzip");
            reveal_strlit("identity");
            assert(e@ != "identity"@) by {
                assert(e@[0] != "identity"@[0]);
            }
        }
        CompressedResponse { original_size: data.len(), compressed_size: n, data: compressed, encoding: e }
    }

    /// The data a response carries: as is when plain, decoded when
    /// compressed.
    pub fn decompress(response: &CompressedResponse) -> (r: Vec<u8>)
        requires
            decoded(*response).is_some(),
        ensures
            Some(r@) == decoded(*response),
    {
        if str_eq(response.encoding.as_str(), "identity") {
            let mut v: Vec<u8> = Vec::new();
            let mut i: usize = 0;
            while i < response.data.len()
                invariant
                    i <= response.data@.len(),
                    v@ == response.data@.take(i as int),
                decreases response.data@.len() - i,
            {
                v.push(response.data[i]);
                i += 1;
                assert(v@ =~= response.data@.take(i as int));
            }
            assert(v@ =~= response.data@);
            v
        } else {
            match gzip_decode(response.data.as_slice()) {
                Some(v) => v,
                None => Vec::new(),
            }
        }
    }

    /// The data a response carries, or none when its compressed stream does
    /// not decode.
    pub fn try_decompress(response: &CompressedResponse) -> (r: Option<Vec<u8>>)
        ensures
            match r {
                Some(v) => decoded(*response) == Some(v@),
                None => decoded(*response).is_none(),
            },
    {
        if str_eq(response.encoding.as_str(), "identity") {
            return Some(Self::decompress(response));
        }
        match gzip_decode(response.data.as_slice()) {
            Some(_) => Some(Self::decompress(response)),
            None => None,
        }
    }
}
} // verus!
