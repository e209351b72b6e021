//! Host side: turning fixed-size reads of the serial stream into capture records.
use vstd::prelude::*;
use crate::protocol::{encode_command, command_frame, RESET};
use crate::wire::{wire_frame, MAX_PAYLOAD};

verus! {

/// Bytes the host reads per frame: the length byte and the full payload region.
pub const BLOCK_LEN: usize = 129;

/// The original length recorded for every captured frame.
pub const ORIGINAL_LEN: u32 = 129;

/// One record of the capture container.
#[derive(Debug)]
pub struct CaptureRecord {
    /// Host wall-clock time of the read, in microseconds since the Unix epoch.
    pub timestamp_us: u64,
    /// The frame's length byte: the number of payload bytes kept.
    pub captured_len: u32,
    /// Always `ORIGINAL_LEN`.
    pub original_len: u32,
    pub payload: Vec<u8>,
}

/// Why a read did not give a record.
#[derive(Clone, Copy, Debug, PartialEq, Eq, Structural)]
pub enum DecodeError {
    /// The read did not complete a whole block: no frame this time.
    Incomplete,
    /// The length byte exceeds 128, so the stream is out of step with the
    /// frame boundaries; the block is dropped rather than misread.
    LengthOutOfRange(u8),
}

/// What reading `block` at time `ts` yields: a record of the length byte's
/// count of bytes following it, or the reason there is none.
pub open spec fn decode_spec(block: Seq<u8>, ts: u64) -> Result<(u64, u32, u32, Seq<u8>), DecodeError> {
    if block.len() != BLOCK_LEN {
        Err(DecodeError::Incomplete)
    } else if block[0] > MAX_PAYLOAD {
        Err(DecodeError::LengthOutOfRange(block[0]))
    } else {
        Ok((ts, block[0] as u32, ORIGINAL_LEN, block.subrange(1, 1 + block[0] as int)))
    }
}

impl CaptureRecord {
    /// The record as (timestamp, captured length, original length, payload).
    pub open spec fn spec_fields(&self) -> (u64, u32, u32, Seq<u8>) {
        (self.timestamp_us, self.captured_len, self.original_len, self.payload@)
    }
}

/// Decodes one block read from the serial stream at time `timestamp_us`.
pub fn decode_block(block: &[u8], timestamp_us: u64) -> (r: Result<CaptureRecord, DecodeError>)
    ensures
        match r {
            Ok(rec) => decode_spec(block@, timestamp_us) == Ok::<_, DecodeError>(rec.spec_fields()),
            Err(e) => decode_spec(block@, timestamp_us) == Err::<(u64, u32, u32, Seq<u8>), _>(e),
        },
{
    if block.len() != BLOCK_LEN {
        return Err(DecodeError::Incomplete);
    }
    let len = block[0];
    if len as usize > MAX_PAYLOAD {
        return Err(DecodeError::LengthOutOfRange(len));
    }
    let end: usize = 1 + len as usize;
    let mut payload: Vec<u8> = Vec::new();
    let mut i: usize = 1;
    while i < end
        invariant
            block@.len() == BLOCK_LEN,
            end == 1 + block@[0],
            end <= BLOCK_LEN,
            1 <= i <= end,
            payload@ == block@.subrange(1, i as int),
        decreases end - i,
    {
        payload.push(block[i]);
        assert(block@.subrange(1, i + 1) =~= block@.subrange(1, i as int).push(block@[i as int]));
        i = i + 1;
    }
    Ok(CaptureRecord {
        timestamp_us,
        captured_len: len as u32,
        original_len: ORIGINAL_LEN,
        payload,
    })
}

/// The bytes the host sends first: the marker sequence and the reset sentinel.
pub fn handshake() -> (r: Vec<u8>)
    ensures
        r@ == command_frame(RESET),
{
    encode_command(RESET)
}

/// A wire frame read as a full block, whatever fills the rest of the block,
/// decodes to a record of exactly the original payload, with the captured
/// length equal to the payload's length and the original length 129.
pub proof fn lemma_round_trip(data: Seq<u8>, filler: Seq<u8>, ts: u64)
    requires
        data.len() <= MAX_PAYLOAD,
        filler.len() == MAX_PAYLOAD - data.len(),
    ensures
        decode_spec(wire_frame(data) + filler, ts) == Ok::<_, DecodeError>(
            (ts, data.len() as u32, ORIGINAL_LEN, data),
        ),
{
    let block = wire_frame(data) + filler;
    assert(data.take(data.len() as int) =~= data);
    assert(block[0] == data.len() as u8);
    assert(block.subrange(1, 1 + data.len() as int) =~= data);
}

} // verus!
