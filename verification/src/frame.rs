//! Length-prefixed framing: every frame is a 4-byte big-endian length
//! followed by that many payload bytes.
use vstd::prelude::*;

verus! {

/// The largest frame a 4-byte length field can describe.
pub const LENGTH_FIELD_MAX: u64 = 0xffff_ffff;

/// The frame limit used when none is configured (8 MiB).
pub const DEFAULT_MAX_FRAME_LENGTH: usize = 8388608;

/// The four big-endian bytes of `n`.
pub open spec fn be32_bytes(n: u32) -> Seq<u8> {
    seq![(n >> 24u32) as u8, (n >> 16u32) as u8, (n >> 8u32) as u8, n as u8]
}

/// The number that four big-endian bytes encode.
pub open spec fn be32_value(b0: u8, b1: u8, b2: u8, b3: u8) -> u32 {
    ((b0 as u32) << 24u32) | ((b1 as u32) << 16u32) | ((b2 as u32) << 8u32) | (b3 as u32)
}

/// The encoding of one frame.
pub open spec fn spec_frame(payload: Seq<u8>) -> Seq<u8> {
    be32_bytes(payload.len() as u32) + payload
}

/// Why a frame was refused.
#[derive(Debug, Clone, Copy, PartialEq, Eq, Structural)]
pub enum FrameError {
    /// The length (announced or given) exceeds the configured limit.
    TooLong,
}

/// What decoding the front of a buffer yields.
#[derive(Debug, Clone, PartialEq, Eq)]
pub enum Decoded {
    /// The buffer does not yet hold a whole frame.
    Incomplete,
    /// A whole frame: its payload and how many bytes of the buffer it used.
    Frame { payload: Vec<u8>, consumed: usize },
}

/// The outcome of decoding the front of `buf` with the limit `max`.
pub open spec fn spec_decode(buf: Seq<u8>, max: nat) -> Result<Option<(Seq<u8>, nat)>, FrameError> {
    if buf.len() < 4 {
        Ok(None)
    } else {
        let n = be32_value(buf[0], buf[1], buf[2], buf[3]) as nat;
        if n > max {
            Err(FrameError::TooLong)
        } else if buf.len() < 4 + n {
            Ok(None)
        } else {
            Ok(Some((buf.subrange(4, 4 + n as int), (4 + n) as nat)))
        }
    }
}

/// The view of a decode result as plain sequences.
pub open spec fn decoded_view(d: Decoded) -> Option<(Seq<u8>, nat)> {
    match d {
        Decoded::Incomplete => None,
        Decoded::Frame { payload, consumed } => Some((payload@, consumed as nat)),
    }
}

pub proof fn lemma_be32_roundtrip(n: u32)
    ensures
        be32_value(be32_bytes(n)[0], be32_bytes(n)[1], be32_bytes(n)[2], be32_bytes(n)[3]) == n,
{
    let b0 = (n >> 24u32) as u8;
    let b1 = (n >> 16u32) as u8;
    let b2 = (n >> 8u32) as u8;
    let b3 = n as u8;
    assert(((b0 as u32) << 24u32) | ((b1 as u32) << 16u32) | ((b2 as u32) << 8u32) | (b3 as u32)
        == n) by (bit_vector)
        requires
            b0 == (n >> 24u32) as u8,
            b1 == (n >> 16u32) as u8,
            b2 == (n >> 8u32) as u8,
            b3 == n as u8,
    ;
}

/// A codec for length-prefixed frames with a maximum payload length.
#[derive(Debug, Clone, Copy)]
pub struct LengthDelimited {
    max_frame_length: usize,
}

impl LengthDelimited {
    /// The effective limit: the configured one, clipped to what the length field can hold.
    pub closed spec fn limit(self) -> nat {
        if self.max_frame_length as u64 > LENGTH_FIELD_MAX {
            LENGTH_FIELD_MAX as nat
        } else {
            self.max_frame_length as nat
        }
    }

    /// A codec with the given frame limit.
    pub fn new(max_frame_length: usize) -> (c: LengthDelimited)
        ensures
            c.limit() == (if max_frame_length as u64 > LENGTH_FIELD_MAX {
                LENGTH_FIELD_MAX as nat
            } else {
                max_frame_length as nat
            }),
    {
        LengthDelimited { max_frame_length }
    }

    /// The effective limit.
    pub fn max_frame_length(&self) -> (m: usize)
        ensures
            m as nat == self.limit(),
    {
        if self.max_frame_length as u64 > LENGTH_FIELD_MAX {
            LENGTH_FIELD_MAX as usize
        } else {
            self.max_frame_length
        }
    }

    /// Encodes one frame; refuses payloads longer than the limit.
    pub fn encode(&self, payload: &[u8]) -> (r: Result<Vec<u8>, FrameError>)
        ensures
            payload@.len() > self.limit() ==> r == Err::<Vec<u8>, FrameError>(FrameError::TooLong),
            payload@.len() <= self.limit() ==> (r matches Ok(out) && out@ == spec_frame(payload@)),
    {
        let max = self.max_frame_length();
        if payload.len() > max {
            return Err(FrameError::TooLong);
        }
        let n: u32 = payload.len() as u32;
        let mut out: Vec<u8> = Vec::with_capacity(payload.len());
        out.push((n >> 24u32) as u8);
        out.push((n >> 16u32) as u8);
        out.push((n >> 8u32) as u8);
        out.push(n as u8);
        assert(out@ == be32_bytes(n));
        assert(out@ == be32_bytes(n) + payload@.subrange(0, 0));
        let mut i: usize = 0;
        while i < payload.len()
            invariant
                i <= payload@.len(),
                out@ == be32_bytes(n) + payload@.subrange(0, i as int),
            decreases payload@.len() - i,
        {
            out.push(payload[i]);
            assert(payload@.subrange(0, i as int + 1) == payload@.subrange(0, i as int).push(payload@[i as int]));
            i = i + 1;
        }
        assert(payload@.subrange(0, payload@.len() as int) == payload@);
        Ok(out)
    }

    /// Decodes the frame at the front of `buf`, if it is whole.
    pub fn decode(&self, buf: &[u8]) -> (r: Result<Decoded, FrameError>)
        ensures
            match r {
                Ok(d) => spec_decode(buf@, self.limit()) == Ok::<Option<(Seq<u8>, nat)>, FrameError>(decoded_view(d)),
                Err(e) => spec_decode(buf@, self.limit()) == Err::<Option<(Seq<u8>, nat)>, FrameError>(e),
            },
    {
        if buf.len() < 4 {
            return Ok(Decoded::Incomplete);
        }
        let n: u32 = ((buf[0] as u32) << 24u32) | ((buf[1] as u32) << 16u32) | ((buf[2] as u32) << 8u32)
            | (buf[3] as u32);
        let max = self.max_frame_length();
        if n as usize > max {
            return Err(FrameError::TooLong);
        }
        let len = n as usize;
        if buf.len() - 4 < len {
            return Ok(Decoded::Incomplete);
        }
        let mut payload: Vec<u8> = Vec::with_capacity(len);
        let mut i: usize = 0;
        while i < len
            invariant
                i <= len,
                4 + len <= buf.len(),
                payload@ == buf@.subrange(4, 4 + i as int),
            decreases len - i,
        {
            payload.push(buf[4 + i]);
            assert(buf@.subrange(4, 4 + i as int + 1) == buf@.subrange(4, 4 + i as int).push(buf@[4 + i as int]));
            i = i + 1;
        }
        Ok(Decoded::Frame { payload, consumed: 4 + len })
    }
}

/// Law: a frame that was encoded decodes to the same payload, whatever follows it.
pub proof fn lemma_frame_roundtrip(codec: LengthDelimited, payload: Seq<u8>, rest: Seq<u8>)
    requires
        payload.len() <= codec.limit(),
    ensures
        spec_decode(spec_frame(payload) + rest, codec.limit())
            == Ok::<Option<(Seq<u8>, nat)>, FrameError>(Some((payload, (4 + payload.len()) as nat))),
{
    let n = payload.len() as u32;
    let buf = spec_frame(payload) + rest;
    lemma_be32_roundtrip(n);
    assert(buf[0] == be32_bytes(n)[0]);
    assert(buf[1] == be32_bytes(n)[1]);
    assert(buf[2] == be32_bytes(n)[2]);
    assert(buf[3] == be32_bytes(n)[3]);
    assert(buf.subrange(4, 4 + payload.len() as int) =~= payload);
}

} // verus!
