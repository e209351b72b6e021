//! Device-to-host wire frames: one length byte, then that many payload bytes.
use vstd::prelude::*;

verus! {

/// Largest payload a wire frame carries.
pub const MAX_PAYLOAD: usize = 128;

/// How many payload bytes of a raw frame of length `n` are forwarded.
pub open spec fn forwarded_len(n: nat) -> nat {
    if n <= MAX_PAYLOAD {
        n
    } else {
        MAX_PAYLOAD as nat
    }
}

/// The wire frame for a raw frame: `[min(len, 128)]` then that many bytes.
pub open spec fn wire_frame(data: Seq<u8>) -> Seq<u8> {
    seq![forwarded_len(data.len()) as u8] + data.take(forwarded_len(data.len()) as int)
}

/// The wire frames of several raw frames, one after the other.
pub open spec fn wire_stream(frames: Seq<Seq<u8>>) -> Seq<u8>
    decreases frames.len(),
{
    if frames.len() == 0 {
        Seq::empty()
    } else {
        wire_stream(frames.drop_last()) + wire_frame(frames.last())
    }
}

/// Appends the wire frame of `data` to `out`.
pub fn write_wire_frame(out: &mut Vec<u8>, data: &[u8])
    ensures
        final(out)@ == old(out)@ + wire_frame(data@),
{
    let n: usize = if data.len() <= MAX_PAYLOAD {
        data.len()
    } else {
        MAX_PAYLOAD
    };
    let ghost start = out@;
    out.push(n as u8);
    let mut i: usize = 0;
    while i < n
        invariant
            n == forwarded_len(data@.len()),
            n <= data@.len(),
            i <= n,
            out@ == start + seq![n as u8] + data@.take(i as int),
        decreases n - i,
    {
        out.push(data[i]);
        assert(data@.take(i + 1) =~= data@.take(i as int).push(data@[i as int]));
        i = i + 1;
    }
    assert(out@ =~= start + wire_frame(data@));
}

/// Serialises one raw frame as a wire frame.
pub fn encode_wire_frame(data: &[u8]) -> (r: Vec<u8>)
    ensures
        r@ == wire_frame(data@),
{
    let mut r: Vec<u8> = Vec::new();
    write_wire_frame(&mut r, data);
    assert(r@ =~= wire_frame(data@));
    r
}

/// A payload of up to 128 bytes gives a frame of exactly `1 + L` bytes:
/// the length byte `L`, then the payload unchanged.
pub proof fn lemma_wire_frame_shape(data: Seq<u8>)
    requires
        data.len() <= MAX_PAYLOAD,
    ensures
        wire_frame(data).len() == 1 + data.len(),
        wire_frame(data)[0] == data.len() as u8,
        wire_frame(data).subrange(1, 1 + data.len() as int) == data,
{
    assert(data.take(data.len() as int) =~= data);
    assert(wire_frame(data).subrange(1, 1 + data.len() as int) =~= data);
}

} // verus!
