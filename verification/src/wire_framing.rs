//! Length-prefixed framing of payloads on a byte stream: a four-byte
//! big-endian length, then the payload, up to 16 MiB.

use vstd::prelude::*;

verus! {

/// The largest payload a frame may carry.
pub const MAX_PAYLOAD_SIZE: u32 = 16 * 1024 * 1024;

/// A stream that payloads are framed on.
pub struct FramedNetworkStream<S> {
    pub stream: S,
}

impl<S> FramedNetworkStream<S> {
    pub fn new(stream: S) -> (r: Self)
        ensures
            r.stream == stream,
    {
        FramedNetworkStream { stream }
    }
}

/// Why a frame could not be made or read.
#[derive(Debug, Clone, Copy, PartialEq, Eq, Structural)]
pub enum FrameError {
    /// The payload exceeds `MAX_PAYLOAD_SIZE`.
    TooLarge,
    /// The bytes end before the frame does.
    Truncated,
}

/// The four big-endian bytes of `n`.
pub open spec fn be_bytes(n: u32) -> Seq<u8> {
    seq![
        (n / 0x100_0000) as u8,
        ((n / 0x1_0000) % 0x100) as u8,
        ((n / 0x100) % 0x100) as u8,
        (n % 0x100) as u8,
    ]
}

/// The number four big-endian bytes stand for.
pub open spec fn be_value(b: Seq<u8>) -> nat {
    (b[0] as nat) * 0x100_0000 + (b[1] as nat) * 0x1_0000 + (b[2] as nat) * 0x100 + (b[3] as nat)
}

/// The frame of a payload: its length in four big-endian bytes, then the
/// payload (meant for payloads of at most `MAX_PAYLOAD_SIZE` bytes, whose
/// length the field holds exactly).
pub open spec fn framed(payload: Seq<u8>) -> Seq<u8> {
    be_bytes(payload.len() as u32) + payload
}

/// What reading one frame from the start of `buf` gives: the payload and
/// the number of bytes the frame took.
pub open spec fn read_frame(buf: Seq<u8>) -> Result<(Seq<u8>, nat), FrameError> {
    if buf.len() < 4 {
        Err(FrameError::Truncated)
    } else if be_value(buf.take(4)) > MAX_PAYLOAD_SIZE {
        Err(FrameError::TooLarge)
    } else if buf.len() < 4 + be_value(buf.take(4)) {
        Err(FrameError::Truncated)
    } else {
        Ok((buf.subrange(4, 4 + be_value(buf.take(4)) as int), 4 + be_value(buf.take(4))))
    }
}

proof fn lemma_be_round_trip(n: u32)
    ensures
        be_bytes(n).len() == 4,
        be_value(be_bytes(n)) == n,
{
    let b = be_bytes(n);
    assert(b[0] as nat == n / 0x100_0000);
    assert(b[1] as nat == (n / 0x1_0000) % 0x100);
    assert(b[2] as nat == (n / 0x100) % 0x100);
    assert(b[3] as nat == n % 0x100);
    assert((n / 0x100_0000) * 0x100_0000 + ((n / 0x1_0000) % 0x100) * 0x1_0000
        + ((n / 0x100) % 0x100) * 0x100 + n % 0x100 == n) by (nonlinear_arith);
}

/// Makes the frame of a payload; a payload longer than `MAX_PAYLOAD_SIZE`
/// bytes is refused.
pub fn encode_frame(payload: &[u8]) -> (r: Result<Vec<u8>, FrameError>)
    ensures
        match r {
            Ok(bytes) => payload@.len() <= MAX_PAYLOAD_SIZE && bytes@ == framed(payload@),
            Err(e) => payload@.len() > MAX_PAYLOAD_SIZE && e == FrameError::TooLarge,
        },
{
    if payload.len() > MAX_PAYLOAD_SIZE as usize {
        return Err(FrameError::TooLarge);
    }
    let length: u32 = payload.len() as u32;
    let mut bytes: Vec<u8> = Vec::new();
    bytes.push((length / 0x100_0000) as u8);
    bytes.push(((length / 0x1_0000) % 0x100) as u8);
    bytes.push(((length / 0x100) % 0x100) as u8);
    bytes.push((length % 0x100) as u8);
    proof {
        assert(bytes@ =~= be_bytes(length));
    }
    let mut i: usize = 0;
    while i < payload.len()
        invariant
            i <= payload@.len(),
            bytes@ == be_bytes(length) + payload@.take(i as int),
        decreases payload@.len() - i,
    {
        bytes.push(payload[i]);
        proof {
            assert(payload@.take(i + 1) =~= payload@.take(i as int).push(payload@[i as int]));
            assert(bytes@ =~= be_bytes(length) + payload@.take(i + 1));
        }
        i = i + 1;
    }
    proof {
        assert(payload@.take(payload@.len() as int) =~= payload@);
    }
    Ok(bytes)
}

/// The payload length a frame header announces, refused above the maximum.
pub fn decode_frame_length(header: [u8; 4]) -> (r: Result<u32, FrameError>)
    ensures
        match r {
            Ok(n) => n == be_value(header@) && n <= MAX_PAYLOAD_SIZE,
            Err(e) => be_value(header@) > MAX_PAYLOAD_SIZE && e == FrameError::TooLarge,
        },
{
    let length: u32 = (header[0] as u32) * 0x100_0000 + (header[1] as u32) * 0x1_0000
        + (header[2] as u32) * 0x100 + (header[3] as u32);
    if length > MAX_PAYLOAD_SIZE {
        return Err(FrameError::TooLarge);
    }
    Ok(length)
}

/// Reads one frame from the start of `buf`: its payload and how many bytes
/// it took.
pub fn decode_frame(buf: &[u8]) -> (r: Result<(Vec<u8>, usize), FrameError>)
    ensures
        match r {
            Ok((payload, used)) => read_frame(buf@) == Ok::<(Seq<u8>, nat), FrameError>((payload@, used as nat)),
            Err(e) => read_frame(buf@) == Err::<(Seq<u8>, nat), FrameError>(e),
        },
{
    if buf.len() < 4 {
        return Err(FrameError::Truncated);
    }
    let header: [u8; 4] = [buf[0], buf[1], buf[2], buf[3]];
    proof {
        assert(header@ =~= buf@.take(4));
    }
    let length = match decode_frame_length(header) {
        Ok(n) => n as usize,
        Err(e) => return Err(e),
    };
    if buf.len() - 4 < length {
        return Err(FrameError::Truncated);
    }
    let payload = crate::wire_framing::copy_bytes(buf, 4, 4 + length);
    Ok((payload, 4 + length))
}

fn copy_bytes(s: &[u8], a: usize, b: usize) -> (v: Vec<u8>)
    requires
        a <= b <= s@.len(),
    ensures
        v@ == s@.subrange(a as int, b as int),
{
    let mut v: Vec<u8> = Vec::new();
    let mut i: usize = a;
    while i < b
        invariant
            a <= i <= b <= s@.len(),
            v@ == s@.subrange(a as int, i as int),
        decreases b - i,
    {
        v.push(s[i]);
        proof {
            assert(s@.subrange(a as int, i + 1) =~= s@.subrange(a as int, i as int).push(s@[i as int]));
        }
        i = i + 1;
    }
    v
}

/// Reading back a frame gives the payload it was made from, and where the
/// next frame starts: whatever follows a frame does not disturb it.
pub proof fn frame_round_trip(payload: Seq<u8>, rest: Seq<u8>)
    requires
        payload.len() <= MAX_PAYLOAD_SIZE,
    ensures
        read_frame(framed(payload) + rest) == Ok::<(Seq<u8>, nat), FrameError>((payload, 4 + payload.len())),
{
    let n = payload.len() as u32;
    lemma_be_round_trip(n);
    let buf = framed(payload) + rest;
    assert(buf.take(4) =~= be_bytes(n));
    assert(buf.subrange(4, 4 + payload.len() as int) =~= payload);
}

} // verus!
