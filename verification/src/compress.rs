//! Byte compressors (LZ4 block with a size prefix, gzip) and the byte
//! transforms that a listener's pipeline chains.
use vstd::prelude::*;
use crate::error::{AppError, ErrorCode};
use std::io::{Read, Write};

verus! {

/// What `lz4_flex::decompress_size_prepended` returns for `data`: the
/// decompressed bytes, or `None` when `data` is not a valid size-prefixed block.
pub uninterp spec fn lz4_unblock(data: Seq<u8>) -> Option<Seq<u8>>;

/// What a gzip decoder reading `data` to its end yields: the decompressed
/// bytes, or `None` when `data` is not a valid gzip stream.
pub uninterp spec fn gunzip(data: Seq<u8>) -> Option<Seq<u8>>;

/// What `lz4_flex::compress_prepend_size` returns for `data`.
pub uninterp spec fn lz4_block(data: Seq<u8>) -> Seq<u8>;

/// What a flate2 `GzEncoder` at `Compression::fast()`, writing into a `Vec`,
/// yields for `data` once finished, or `None` where it reports an I/O error.
pub uninterp spec fn gzip_fast(data: Seq<u8>) -> Option<Seq<u8>>;

/// Calls `lz4_flex::compress_prepend_size`. The crate documents its output
/// as the input's size as a little-endian `u32` followed by the block, and
/// as readable by `decompress_size_prepended`; the prefix is a `u32`, so
/// both hold for inputs of at most `u32::MAX` bytes. The compressed bytes
/// are named `lz4_block`.
#[verifier::external_body]
fn lz4_compress_prepend_size(data: &[u8]) -> (r: Vec<u8>)
    ensures
        r@ == lz4_block(data@),
        data@.len() <= u32::MAX ==> lz4_unblock(r@) == Some(data@),
        data@.len() <= u32::MAX ==> r@.len() >= 4 && lz4_declared(r@) == data@.len(),
{
    lz4_flex::compress_prepend_size(data)
}

/// The uncompressed size a size-prefixed LZ4 block declares: its first four
/// bytes, little-endian.
pub open spec fn lz4_declared(c: Seq<u8>) -> int {
    c[0] as int + 256 * (c[1] as int) + 65536 * (c[2] as int) + 16777216 * (c[3] as int)
}

/// The declared size up to which a block is always handed to the decoder
/// (64 MiB), whatever its length.
pub open spec fn lz4_small_declared() -> int {
    67108864
}

/// Whether a size-prefixed block may be handed to the decoder, which first
/// allocates the size the block declares: the declared size is at most
/// 64 MiB, or at most what an LZ4 block of that length can decode to (255
/// bytes for each byte after the prefix, plus 255).
pub open spec fn lz4_plausible(c: Seq<u8>) -> bool {
    &&& c.len() >= 4
    &&& (lz4_declared(c) <= lz4_small_declared() || lz4_declared(c) <= 255 * (c.len() - 4) + 255)
}

fn lz4_plausible_exec(c: &[u8]) -> (b: bool)
    ensures
        b == lz4_plausible(c@),
{
    if c.len() < 4 {
        return false;
    }
    let declared: u64 = c[0] as u64 + 256 * (c[1] as u64) + 65536 * (c[2] as u64) + 16777216 * (c[3] as u64);
    if declared <= 67108864 {
        return true;
    }
    let body: u64 = (c.len() - 4) as u64;
    if body > 100_000_000_000_000u64 {
        return true;
    }
    declared <= 255 * body + 255
}

/// The decoding error of `lz4_flex`, carried through opaquely.
#[verifier::external_type_specification]
#[verifier::external_body]
pub struct ExLz4DecompressError(lz4_flex::block::DecompressError);

/// `std::io::Error`, carried through opaquely.
#[verifier::external_type_specification]
#[verifier::external_body]
pub struct ExIoError(std::io::Error);

/// Calls `lz4_flex::decompress_size_prepended`. The decoder first
/// allocates the size the block declares (up to `u32::MAX` bytes), and a
/// failed allocation aborts the process; so it is called only on blocks
/// that declare at most 64 MiB or no more than their length can decode to.
#[verifier::external_body]
fn lz4_decompress_size_prepended(data: &[u8]) -> (r: Result<Vec<u8>, lz4_flex::block::DecompressError>)
    requires
        lz4_plausible(data@),
    ensures
        match r {
            Ok(v) => lz4_unblock(data@) == Some(v@),
            Err(_) => lz4_unblock(data@) is None,
        },
{
    lz4_flex::decompress_size_prepended(data)
}

/// Writes `data` through flate2's `GzEncoder` at `Compression::fast()` into
/// a `Vec` and finishes the stream. The outcome is named `gzip_fast`; a
/// finished gzip stream decodes back to what was written.
#[verifier::external_body]
fn gzip_encode_fast(data: &[u8]) -> (r: Result<Vec<u8>, std::io::Error>)
    ensures
        match r {
            Ok(v) => gzip_fast(data@) == Some(v@),
            Err(_) => gzip_fast(data@) is None,
        },
        r matches Ok(v) ==> gunzip(v@) == Some(data@),
{
    let mut encoder = flate2::write::GzEncoder::new(Vec::new(), flate2::Compression::fast());
    encoder.write_all(data)?;
    encoder.finish()
}

/// Reads a flate2 `GzDecoder` over `data` to its end.
#[verifier::external_body]
fn gzip_decode(data: &[u8]) -> (r: Result<Vec<u8>, std::io::Error>)
    ensures
        match r {
            Ok(v) => gunzip(data@) == Some(v@),
            Err(_) => gunzip(data@) is None,
        },
{
    let mut out = Vec::new();
    match flate2::read::GzDecoder::new(data).read_to_end(&mut out) {
        Ok(_) => Ok(out),
        Err(e) => Err(e),
    }
}

/// A byte compressor: what `decompress` gives back undoes `compress`.
pub trait Compressor {
    /// The decompressed form of `compressed`, or `None` if it is not valid.
    spec fn restored(&self, compressed: Seq<u8>) -> Option<Seq<u8>>;

    /// The inputs whose compressed form is guaranteed to decompress back.
    spec fn restorable(&self, data: Seq<u8>) -> bool;

    /// The short name under which the compressor is registered.
    spec fn spec_name(&self) -> Seq<char>;

    /// What compressing `data` yields, or `None` when compression fails.
    spec fn compressed(&self, data: Seq<u8>) -> Option<Seq<u8>>;

    fn name(&self) -> (n: &'static str)
        ensures
            n@ == self.spec_name(),
    ;

    fn compress(&self, data: &[u8]) -> (r: Result<Vec<u8>, AppError>)
        ensures
            match r {
                Ok(v) => self.compressed(data@) == Some(v@),
                Err(e) => self.compressed(data@) is None && e.code == ErrorCode::Internal,
            },
            r matches Ok(v) ==> (self.restorable(data@) ==> self.restored(v@) == Some(data@)),
    ;

    fn decompress(&self, data: &[u8]) -> (r: Result<Vec<u8>, AppError>)
        ensures
            match r {
                Ok(v) => self.restored(data@) == Some(v@),
                Err(e) => self.restored(data@) is None && e.code == ErrorCode::Internal,
            },
    ;
}

/// LZ4 block compression, the uncompressed size prepended as a little-endian `u32`.
#[derive(Debug, Clone, Copy)]
pub struct Lz4Compressor;

impl Compressor for Lz4Compressor {
    open spec fn restored(&self, compressed: Seq<u8>) -> Option<Seq<u8>> {
        if lz4_plausible(compressed) { lz4_unblock(compressed) } else { None }
    }

    /// Inputs that fit the size prefix and whose block the decoder accepts
    /// to allocate for; every input of at most 64 MiB is one.
    open spec fn restorable(&self, data: Seq<u8>) -> bool {
        data.len() <= u32::MAX && lz4_plausible(lz4_block(data))
    }

    open spec fn spec_name(&self) -> Seq<char> {
        "lz4"@
    }

    /// LZ4 compression never fails.
    open spec fn compressed(&self, data: Seq<u8>) -> Option<Seq<u8>> {
        Some(lz4_block(data))
    }

    fn name(&self) -> (n: &'static str) {
        "lz4"
    }

    fn compress(&self, data: &[u8]) -> (r: Result<Vec<u8>, AppError>)
        ensures
            r is Ok,
            data@.len() <= lz4_small_declared() ==> self.restorable(data@),
    {
        Ok(lz4_compress_prepend_size(data))
    }

    /// Blocks that declare over 64 MiB and more than they can hold are
    /// refused without decoding.
    fn decompress(&self, data: &[u8]) -> (r: Result<Vec<u8>, AppError>) {
        if !lz4_plausible_exec(data) {
            return Err(AppError::from_static(ErrorCode::Internal, "lz4 decompress failed: implausible size"));
        }
        match lz4_decompress_size_prepended(data) {
            Ok(v) => Ok(v),
            Err(_) => Err(AppError::from_static(ErrorCode::Internal, "lz4 decompress failed")),
        }
    }
}

/// Gzip compression at the fast level.
#[derive(Debug, Clone, Copy)]
pub struct GzipCompressor;

impl Compressor for GzipCompressor {
    open spec fn restored(&self, compressed: Seq<u8>) -> Option<Seq<u8>> {
        gunzip(compressed)
    }

    open spec fn restorable(&self, data: Seq<u8>) -> bool {
        true
    }

    open spec fn spec_name(&self) -> Seq<char> {
        "gzip"@
    }

    open spec fn compressed(&self, data: Seq<u8>) -> Option<Seq<u8>> {
        gzip_fast(data)
    }

    fn name(&self) -> (n: &'static str) {
        "gzip"
    }

    fn compress(&self, data: &[u8]) -> (r: Result<Vec<u8>, AppError>) {
        match gzip_encode_fast(data) {
            Ok(v) => Ok(v),
            Err(_) => Err(AppError::from_static(ErrorCode::Internal, "gzip compress failed")),
        }
    }

    fn decompress(&self, data: &[u8]) -> (r: Result<Vec<u8>, AppError>) {
        match gzip_decode(data) {
            Ok(v) => Ok(v),
            Err(_) => Err(AppError::from_static(ErrorCode::Internal, "gzip decompress failed")),
        }
    }
}

/// One of the compressors this library ships.
#[derive(Debug, Clone, Copy)]
pub enum BuiltinCompressor {
    Lz4(Lz4Compressor),
    Gzip(GzipCompressor),
}

impl Compressor for BuiltinCompressor {
    open spec fn restored(&self, compressed: Seq<u8>) -> Option<Seq<u8>> {
        match self {
            BuiltinCompressor::Lz4(c) => c.restored(compressed),
            BuiltinCompressor::Gzip(c) => c.restored(compressed),
        }
    }

    open spec fn restorable(&self, data: Seq<u8>) -> bool {
        match self {
            BuiltinCompressor::Lz4(c) => c.restorable(data),
            BuiltinCompressor::Gzip(c) => c.restorable(data),
        }
    }

    open spec fn spec_name(&self) -> Seq<char> {
        match self {
            BuiltinCompressor::Lz4(c) => c.spec_name(),
            BuiltinCompressor::Gzip(c) => c.spec_name(),
        }
    }

    open spec fn compressed(&self, data: Seq<u8>) -> Option<Seq<u8>> {
        match self {
            BuiltinCompressor::Lz4(c) => c.compressed(data),
            BuiltinCompressor::Gzip(c) => c.compressed(data),
        }
    }

    fn name(&self) -> (n: &'static str) {
        match self {
            BuiltinCompressor::Lz4(c) => c.name(),
            BuiltinCompressor::Gzip(c) => c.name(),
        }
    }

    fn compress(&self, data: &[u8]) -> (r: Result<Vec<u8>, AppError>) {
        match self {
            BuiltinCompressor::Lz4(c) => c.compress(data),
            BuiltinCompressor::Gzip(c) => c.compress(data),
        }
    }

    fn decompress(&self, data: &[u8]) -> (r: Result<Vec<u8>, AppError>) {
        match self {
            BuiltinCompressor::Lz4(c) => c.decompress(data),
            BuiltinCompressor::Gzip(c) => c.decompress(data),
        }
    }
}

/// The compressors available out of the box: LZ4, then gzip.
pub fn builtin_compressors() -> (v: Vec<BuiltinCompressor>)
    ensures
        v@.len() == 2,
        v@[0] is Lz4,
        v@[1] is Gzip,
{
    let mut v: Vec<BuiltinCompressor> = Vec::new();
    v.push(BuiltinCompressor::Lz4(Lz4Compressor));
    v.push(BuiltinCompressor::Gzip(GzipCompressor));
    v
}

/// A reversible transformation of a frame's bytes, one stage of a pipeline.
pub trait ByteTransform {
    /// What decoding `encoded` gives, or `None` when decoding fails.
    spec fn decoded(&self, encoded: Seq<u8>) -> Option<Seq<u8>>;

    /// The inputs whose encoding is guaranteed to decode back.
    spec fn round_trips(&self, data: Seq<u8>) -> bool;

    /// What encoding `data` gives, or `None` when encoding fails.
    spec fn encoded(&self, data: Seq<u8>) -> Option<Seq<u8>>;

    /// The stage's name.
    spec fn spec_name(&self) -> Seq<char>;

    fn name(&self) -> (n: &'static str)
        ensures
            n@ == self.spec_name(),
    ;

    fn encode(&self, data: Vec<u8>) -> (r: Result<Vec<u8>, AppError>)
        ensures
            match r {
                Ok(v) => self.encoded(data@) == Some(v@),
                Err(_) => self.encoded(data@) is None,
            },
            r matches Ok(v) ==> (self.round_trips(data@) ==> self.decoded(v@) == Some(data@)),
    ;

    fn decode(&self, data: Vec<u8>) -> (r: Result<Vec<u8>, AppError>)
        ensures
            match r {
                Ok(v) => self.decoded(data@) == Some(v@),
                Err(_) => self.decoded(data@) is None,
            },
    ;
}

/// A compressor used as a pipeline stage: encoding compresses, decoding decompresses.
#[derive(Debug, Clone, Copy)]
pub struct CompressorTransform<C: Compressor>(pub C);

impl<C: Compressor> ByteTransform for CompressorTransform<C> {
    open spec fn decoded(&self, encoded: Seq<u8>) -> Option<Seq<u8>> {
        self.0.restored(encoded)
    }

    open spec fn round_trips(&self, data: Seq<u8>) -> bool {
        self.0.restorable(data)
    }

    open spec fn encoded(&self, data: Seq<u8>) -> Option<Seq<u8>> {
        self.0.compressed(data)
    }

    open spec fn spec_name(&self) -> Seq<char> {
        self.0.spec_name()
    }

    fn name(&self) -> (n: &'static str) {
        self.0.name()
    }

    fn encode(&self, data: Vec<u8>) -> (r: Result<Vec<u8>, AppError>) {
        self.0.compress(data.as_slice())
    }

    fn decode(&self, data: Vec<u8>) -> (r: Result<Vec<u8>, AppError>) {
        self.0.decompress(data.as_slice())
    }
}

/// The result of decoding `data` through `ts` in order, or `None` at the
/// first stage that fails.
pub open spec fn decode_all<T: ByteTransform>(ts: Seq<T>, data: Seq<u8>) -> Option<Seq<u8>>
    decreases ts.len(),
{
    if ts.len() == 0 {
        Some(data)
    } else {
        match ts[0].decoded(data) {
            Some(d) => decode_all(ts.drop_first(), d),
            None => None,
        }
    }
}

/// The result of encoding `data` through `ts` from the last stage to the
/// first, or `None` at the first stage that fails.
pub open spec fn encode_all<T: ByteTransform>(ts: Seq<T>, data: Seq<u8>) -> Option<Seq<u8>>
    decreases ts.len(),
{
    if ts.len() == 0 {
        Some(data)
    } else {
        match ts.last().encoded(data) {
            Some(e) => encode_all(ts.drop_last(), e),
            None => None,
        }
    }
}

/// Whether encoding `data` through `ts` (last stage first) hands each stage
/// a value that the stage round-trips.
pub open spec fn round_trips_all<T: ByteTransform>(ts: Seq<T>, data: Seq<u8>) -> bool
    decreases ts.len(),
{
    if ts.len() == 0 {
        true
    } else {
        &&& ts.last().round_trips(data)
        &&& match ts.last().encoded(data) {
            Some(e) => round_trips_all(ts.drop_last(), e),
            None => true,
        }
    }
}

/// Decodes an inbound frame through the pipeline, first stage first.
pub fn decode_pipeline<T: ByteTransform>(pipeline: &[T], data: Vec<u8>) -> (r: Result<Vec<u8>, ()>)
    ensures
        match r {
            Ok(v) => decode_all(pipeline@, data@) == Some(v@),
            Err(_) => decode_all(pipeline@, data@) is None,
        },
{
    let ghost ts = pipeline@;
    let mut cur = data;
    let mut i: usize = 0;
    assert(ts.subrange(0, ts.len() as int) =~= ts);
    while i < pipeline.len()
        invariant
            ts == pipeline@,
            i <= ts.len(),
            decode_all(ts, data@) == decode_all(ts.subrange(i as int, ts.len() as int), cur@),
        decreases ts.len() - i,
    {
        let ghost before = cur@;
        assert(ts.subrange(i as int, ts.len() as int).drop_first() =~= ts.subrange(i + 1, ts.len() as int));
        match pipeline[i].decode(cur) {
            Ok(d) => {
                cur = d;
            },
            Err(_) => {
                return Err(());
            },
        }
        i = i + 1;
    }
    assert(ts.subrange(ts.len() as int, ts.len() as int) =~= Seq::<T>::empty());
    Ok(cur)
}

/// Encodes an outbound frame through the pipeline, last stage first, so that
/// `decode_pipeline` undoes it.
pub fn encode_pipeline<T: ByteTransform>(pipeline: &[T], data: Vec<u8>) -> (r: Result<Vec<u8>, ()>)
    ensures
        match r {
            Ok(v) => encode_all(pipeline@, data@) == Some(v@),
            Err(_) => encode_all(pipeline@, data@) is None,
        },
        r matches Ok(v) ==> (round_trips_all(pipeline@, data@) ==> decode_all(pipeline@, v@) == Some(data@)),
{
    let ghost ts = pipeline@;
    let ghost original = data@;
    let mut cur = data;
    let mut i: usize = pipeline.len();
    assert(ts.subrange(ts.len() as int, ts.len() as int) =~= Seq::<T>::empty());
    assert(ts.subrange(0, ts.len() as int) =~= ts);
    while i > 0
        invariant
            ts == pipeline@,
            i <= ts.len(),
            round_trips_all(ts, original) ==> round_trips_all(ts.subrange(0, i as int), cur@)
                && decode_all(ts.subrange(i as int, ts.len() as int), cur@) == Some(original),
            original == data@,
            encode_all(ts, original) == encode_all(ts.subrange(0, i as int), cur@),
        decreases i,
    {
        let ghost before = cur@;
        let ghost t = ts[i - 1];
        assert(ts.subrange(i - 1, ts.len() as int).drop_first() =~= ts.subrange(i as int, ts.len() as int));
        assert(ts.subrange(i - 1, ts.len() as int)[0] == t);
        assert(ts.subrange(0, i as int).drop_last() =~= ts.subrange(0, i - 1));
        assert(ts.subrange(0, i as int).last() == t);
        match pipeline[i - 1].encode(cur) {
            Ok(e) => {
                proof {
                    if round_trips_all(ts, original) {
                        assert(t.round_trips(before));
                    }
                }
                cur = e;
            },
            Err(_) => {
                assert(encode_all(ts.subrange(0, i as int), before) is None);
                return Err(());
            },
        }
        i = i - 1;
    }
    assert(ts.subrange(0, ts.len() as int) =~= ts);
    assert(ts.subrange(0, 0) =~= Seq::<T>::empty());
    Ok(cur)
}

} // verus!
