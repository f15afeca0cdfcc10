//! The framing of messages on the wire: each message is sent as the length of
//! its encoding, four bytes with the most significant first, followed by the
//! encoding itself.

use vstd::prelude::*;

verus! {

/// The four bytes of `n`, most significant first.
pub open spec fn be_bytes(n: u32) -> Seq<u8> {
    seq![
        (n / 0x100_0000) as u8,
        ((n / 0x1_0000) % 0x100) as u8,
        ((n / 0x100) % 0x100) as u8,
        (n % 0x100) as u8,
    ]
}

/// The number whose bytes, most significant first, are the first four of `b`.
pub open spec fn be_value(b: Seq<u8>) -> int {
    b[0] * 0x100_0000 + b[1] * 0x1_0000 + b[2] * 0x100 + b[3]
}

/// The length written in front of a payload of `len` bytes: the length taken
/// modulo 2^32, as the length is written in four bytes.
pub open spec fn written_length(len: nat) -> u32 {
    (len % 0x1_0000_0000) as u32
}

/// The frame of `payload`.
pub open spec fn frame(payload: Seq<u8>) -> Seq<u8> {
    be_bytes(written_length(payload.len())) + payload
}

/// Reading back the bytes of a number gives the number.
pub proof fn lemma_be_roundtrip(n: u32)
    ensures
        be_value(be_bytes(n)) == n,
{
    let b = be_bytes(n);
    assert(b[0] == n / 0x100_0000);
    assert(b[1] == (n / 0x1_0000) % 0x100);
    assert(b[2] == (n / 0x100) % 0x100);
    assert(b[3] == n % 0x100);
    assert((n / 0x100_0000) * 0x100_0000 + ((n / 0x1_0000) % 0x100) * 0x1_0000 + ((n / 0x100) % 0x100) * 0x100
        + n % 0x100 == n) by (nonlinear_arith);
}

/// The frame of `payload`: its length in four bytes, most significant first,
/// then the payload. A payload of 2^32 bytes or more has its length written
/// modulo 2^32.
pub fn encode_frame(payload: &[u8]) -> (r: Vec<u8>)
    ensures
        r@ == frame(payload@),
{
    let len64 = payload.len() as u64;
    let n = (len64 % 0x1_0000_0000u64) as u32;
    let mut out: Vec<u8> = Vec::new();
    out.push((n / 0x100_0000) as u8);
    out.push(((n / 0x1_0000) % 0x100) as u8);
    out.push(((n / 0x100) % 0x100) as u8);
    out.push((n % 0x100) as u8);
    assert(out@ =~= be_bytes(written_length(payload@.len())));
    let mut i: usize = 0;
    while i < payload.len()
        invariant
            i <= payload@.len(),
            out@ == be_bytes(written_length(payload@.len())) + payload@.subrange(0, i as int),
        decreases payload@.len() - i,
    {
        out.push(payload[i]);
        assert(payload@.subrange(0, i + 1) =~= payload@.subrange(0, i as int).push(payload@[i as int]));
        i = i + 1;
    }
    assert(payload@.subrange(0, payload@.len() as int) =~= payload@);
    out
}

/// The length that a frame header announces.
pub fn frame_length(header: &[u8; 4]) -> (n: u32)
    ensures
        n == be_value(header@),
{
    let b0 = header[0] as u32;
    let b1 = header[1] as u32;
    let b2 = header[2] as u32;
    let b3 = header[3] as u32;
    b0 * 0x100_0000 + b1 * 0x1_0000 + b2 * 0x100 + b3
}

/// The first frame in `buf`: its payload and the number of bytes it takes up,
/// or none when `buf` does not hold a whole frame.
pub fn decode_frame(buf: &[u8]) -> (r: Option<(Vec<u8>, usize)>)
    ensures
        match r {
            None => buf@.len() < 4 || buf@.len() < 4 + be_value(buf@),
            Some((payload, used)) => {
                &&& buf@.len() >= 4
                &&& used == 4 + be_value(buf@)
                &&& used <= buf@.len()
                &&& payload@ == buf@.subrange(4, used as int)
            },
        },
{
    if buf.len() < 4 {
        return None;
    }
    let header: [u8; 4] = [buf[0], buf[1], buf[2], buf[3]];
    let n = frame_length(&header);
    assert(be_value(header@) == be_value(buf@));
    if buf.len() - 4 < n as usize {
        return None;
    }
    let end = 4 + n as usize;
    let mut payload: Vec<u8> = Vec::new();
    let mut i: usize = 4;
    while i < end
        invariant
            4 <= i <= end,
            end <= buf@.len(),
            payload@ == buf@.subrange(4, i as int),
        decreases end - i,
    {
        payload.push(buf[i]);
        assert(buf@.subrange(4, i + 1) =~= buf@.subrange(4, i as int).push(buf@[i as int]));
        i = i + 1;
    }
    Some((payload, end))
}

} // verus!
