use vstd::prelude::*;

verus! {

/// Why a payload cannot be framed.
#[derive(Debug, Clone, Copy, PartialEq, Eq, Structural)]
pub enum FrameError {
    /// The payload's length does not fit the 32-bit length prefix.
    PayloadTooLarge,
}

/// The four little-endian bytes of a 32-bit length.
pub open spec fn le_bytes(n: int) -> Seq<u8> {
    seq![
        (n % 256) as u8,
        ((n / 256) % 256) as u8,
        ((n / 65536) % 256) as u8,
        ((n / 16777216) % 256) as u8,
    ]
}

/// The number four little-endian bytes stand for.
pub open spec fn le_value(b: Seq<u8>) -> int {
    b[0] + 256 * b[1] + 65536 * b[2] + 16777216 * b[3]
}

/// A frame on the wire: the payload's length as four little-endian bytes,
/// then the payload.
pub open spec fn frame_of(payload: Seq<u8>) -> Seq<u8> {
    le_bytes(payload.len() as int) + payload
}

/// Frames a payload for sending: its length as a little-endian `u32`, then
/// the payload. A payload longer than `u32::MAX` bytes is refused.
pub fn frame(payload: &[u8]) -> (r: Result<Vec<u8>, FrameError>)
    ensures
        payload@.len() <= u32::MAX ==> r is Ok && r.unwrap()@ == frame_of(payload@),
        payload@.len() > u32::MAX ==> r == Err::<Vec<u8>, FrameError>(FrameError::PayloadTooLarge),
{
    let n = payload.len();
    if n > 0xFFFF_FFFF {
        return Err(FrameError::PayloadTooLarge);
    }
    let mut out: Vec<u8> = Vec::with_capacity(4);
    out.push((n % 256) as u8);
    out.push(((n / 256) % 256) as u8);
    out.push(((n / 65536) % 256) as u8);
    out.push(((n / 16777216) % 256) as u8);
    let mut i: usize = 0;
    while i < n
        invariant
            n == payload@.len(),
            i <= n,
            out@ == le_bytes(n as int) + payload@.take(i as int),
        decreases n - i,
    {
        out.push(payload[i]);
        i = i + 1;
        proof {
            assert(payload@.take(i as int) =~= payload@.take(i - 1).push(payload@[i - 1]));
            assert(out@ =~= le_bytes(n as int) + payload@.take(i as int));
        }
    }
    proof {
        assert(payload@.take(n as int) =~= payload@);
    }
    Ok(out)
}

/// The payload length a received frame header announces.
pub fn frame_len(header: [u8; 4]) -> (n: usize)
    ensures
        n == le_value(header@),
{
    let b0 = header[0] as usize;
    let b1 = header[1] as usize;
    let b2 = header[2] as usize;
    let b3 = header[3] as u64;
    let v: u64 = (b0 as u64) + 256 * (b1 as u64) + 65536 * (b2 as u64) + 16777216 * b3;
    proof {
        assert(v <= 0xFFFF_FFFF);
    }
    v as usize
}

/// Reading the header of a frame gives back the payload's length, and the
/// bytes after the header are the payload.
pub proof fn lemma_frame_roundtrip(payload: Seq<u8>)
    requires
        payload.len() <= u32::MAX,
    ensures
        le_value(frame_of(payload).take(4)) == payload.len(),
        frame_of(payload).skip(4) == payload,
        frame_of(payload).len() == payload.len() + 4,
{
    let n = payload.len() as int;
    let f = frame_of(payload);
    assert(f.skip(4) =~= payload);
    let b = f.take(4);
    assert(b[0] == (n % 256) as u8);
    assert(b[1] == ((n / 256) % 256) as u8);
    assert(b[2] == ((n / 65536) % 256) as u8);
    assert(b[3] == ((n / 16777216) % 256) as u8);
    assert(n % 256 + 256 * ((n / 256) % 256) + 65536 * ((n / 65536) % 256) + 16777216 * ((n / 16777216) % 256) == n) by (nonlinear_arith)
        requires
            0 <= n <= 0xFFFF_FFFF,
    ;
}

} // verus!
