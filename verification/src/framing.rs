//! Wire framing for the stream-oriented front end: one self-delimited
//! record per message over a duplex byte stream.
//!
//! A record is a four-byte little-endian payload length followed by the
//! payload bytes.  Decoding a truncated buffer asks for more input rather
//! than failing, so a malformed or partial record never tears the stream
//! down; the process around the library turns payload bytes into `Op` and
//! `Event` values.

use vstd::prelude::*;

verus! {

/// The little-endian bytes of a record's length header.
pub open spec fn len_bytes(n: u32) -> Seq<u8> {
    seq![
        (n % 256) as u8,
        ((n / 256) % 256) as u8,
        ((n / 65536) % 256) as u8,
        ((n / 16777216) % 256) as u8,
    ]
}

/// The little-endian value of a record's length header.
pub open spec fn le32(b0: u8, b1: u8, b2: u8, b3: u8) -> u32 {
    (b0 + 256 * (b1 as u32) + 65536 * (b2 as u32) + 16777216 * (b3 as u32)) as u32
}

/// One whole record: the length header, then the payload.
pub open spec fn frame_spec(p: Seq<u8>) -> Seq<u8>
    recommends
        p.len() <= u32::MAX,
{
    len_bytes(p.len() as u32) + p
}

/// Reassembling a value from its four little-endian bytes gives it back.
proof fn lemma_le32_of_len_bytes(n: u32)
    ensures
        le32(
            (n % 256) as u8,
            ((n / 256) % 256) as u8,
            ((n / 65536) % 256) as u8,
            ((n / 16777216) % 256) as u8,
        ) == n,
{
    assert((((n % 256) as u8) + 256 * ((((n / 256) % 256) as u8) as u32) + 65536 * ((((n / 65536)
        % 256) as u8) as u32) + 16777216 * ((((n / 16777216) % 256) as u8) as u32)) as u32 == n)
        by (bit_vector);
}

/// What decoding yields: a whole record, or a request for more input.
#[derive(Clone, Debug, PartialEq, Eq)]
pub enum DecodeOutcome {
    /// A whole record begins at the given position; `consumed` says how
    /// many bytes it takes, header included.
    Frame { payload: Vec<u8>, consumed: usize },
    /// The buffer holds no whole record yet at the given position.
    NeedMore,
}

/// Whether a whole record begins at `start` in `b`.
pub open spec fn frame_complete(b: Seq<u8>, start: int) -> bool {
    &&& b.len() - start >= 4
    &&& b.len() - start - 4 >= le32(b[start], b[start + 1], b[start + 2], b[start + 3])
}

/// Appends one record holding `payload` to the output stream.
pub fn encode_frame(payload: &Vec<u8>, out: &mut Vec<u8>)
    requires
        payload@.len() <= u32::MAX,
    ensures
        final(out)@ == old(out)@ + frame_spec(payload@),
{
    let n: u32 = payload.len() as u32;
    out.push((n % 256) as u8);
    out.push(((n / 256) % 256) as u8);
    out.push(((n / 65536) % 256) as u8);
    out.push(((n / 16777216) % 256) as u8);
    let mut i: usize = 0;
    while i < payload.len()
        invariant
            i <= payload@.len(),
            payload@.len() <= u32::MAX,
            n == payload@.len() as u32,
            out@ == old(out)@ + len_bytes(n) + payload@.subrange(0, i as int),
        decreases payload@.len() - i,
    {
        out.push(payload[i]);
        proof {
            assert(out@ =~= old(out)@ + len_bytes(n) + payload@.subrange(0, i + 1));
        }
        i = i + 1;
    }
    proof {
        assert(payload@.subrange(0, payload@.len() as int) =~= payload@);
        assert(out@ =~= old(out)@ + frame_spec(payload@));
    }
}

/// Reads the record beginning at `start`, if the buffer already holds all
/// of it; otherwise asks for more input.
pub fn decode_frame(buf: &Vec<u8>, start: usize) -> (r: DecodeOutcome)
    requires
        start <= buf@.len(),
    ensures
        frame_complete(buf@, start as int) ==> (r matches DecodeOutcome::Frame {
            payload,
            consumed,
        } && {
            let n = le32(
                buf@[start as int],
                buf@[start as int + 1],
                buf@[start as int + 2],
                buf@[start as int + 3],
            );
            &&& consumed == 4 + n
            &&& payload@ == buf@.subrange(start as int + 4, start as int + 4 + n)
        }),
        !frame_complete(buf@, start as int) ==> r == DecodeOutcome::NeedMore,
    {
        if buf.len() - start < 4 {
            return DecodeOutcome::NeedMore;
        }
        let b0 = buf[start];
        let b1 = buf[start + 1];
        let b2 = buf[start + 2];
        let b3 = buf[start + 3];
        let n: u32 = (b0 as u32) + 256 * (b1 as u32) + 65536 * (b2 as u32) + 16777216 * (b3 as u32);
        assert(n == le32(b0, b1, b2, b3));
        let remaining = buf.len() - start - 4;
        if remaining < n as usize {
            return DecodeOutcome::NeedMore;
        }
        let mut payload: Vec<u8> = Vec::new();
        let mut i: usize = 0;
        while i < n as usize
            invariant
                i <= n,
                buf@.len() <= usize::MAX,
                start + 4 + n <= buf@.len(),
                start + 4 + i <= buf@.len(),
                payload@ == buf@.subrange(start as int + 4, start as int + 4 + i),
            decreases n - i,
        {
            payload.push(buf[start + 4 + i]);
            proof {
                assert(payload@ =~= buf@.subrange(start as int + 4, start as int + 4 + i + 1));
            }
            i = i + 1;
        }
        DecodeOutcome::Frame { payload, consumed: 4 + n as usize }
    }

/// Round trip: a record written by `encode_frame` and decoded from the
/// front of the stream gives back exactly its payload and consumes
/// exactly the record, whatever follows it.
pub proof fn lemma_frame_round_trip(p: Seq<u8>, rest: Seq<u8>)
    requires
        p.len() <= u32::MAX,
    ensures
        frame_complete(frame_spec(p) + rest, 0),
        le32(
            (frame_spec(p) + rest)[0],
            (frame_spec(p) + rest)[1],
            (frame_spec(p) + rest)[2],
            (frame_spec(p) + rest)[3],
        ) == p.len(),
        (frame_spec(p) + rest).subrange(4, 4 + p.len() as int) == p,
{
    let b = frame_spec(p) + rest;
    let n = p.len() as u32;
    lemma_le32_of_len_bytes(n);
    assert(b[0] == (n % 256) as u8);
    assert(b[1] == ((n / 256) % 256) as u8);
    assert(b[2] == ((n / 65536) % 256) as u8);
    assert(b[3] == ((n / 16777216) % 256) as u8);
    assert(le32(b[0], b[1], b[2], b[3]) == n);
    assert(b.subrange(4, 4 + p.len() as int) =~= p);
}

} // verus!
