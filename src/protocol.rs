//! Escape-sequence command framing on the host-to-device serial stream.
use vstd::prelude::*;

verus! {

/// Bit rate of the serial transport (8 data bits, no parity, 1 stop bit).
pub const BAUD_RATE: u32 = 460800;

/// The marker byte (ASCII `+`); four of them open a command.
pub const MARKER: u8 = 0x2B;

/// How many marker bytes precede the command byte.
pub const MARKER_COUNT: usize = 4;

/// Total length of a command frame: the markers and one command byte.
pub const COMMAND_FRAME_LEN: usize = 5;

/// The reset sentinel (ASCII `R`).
pub const RESET: u8 = 0x52;

/// Lowest IEEE 802.15.4 channel in the 2.4 GHz band.
pub const MIN_CHANNEL: u8 = 11;

/// Highest IEEE 802.15.4 channel in the 2.4 GHz band.
pub const MAX_CHANNEL: u8 = 26;

/// A channel number that the radio accepts.
pub open spec fn is_channel(b: u8) -> bool {
    MIN_CHANNEL <= b && b <= MAX_CHANNEL
}

/// What a command byte asks of the firmware.
#[derive(Clone, Copy, Debug, PartialEq, Eq, Structural)]
pub enum Command {
    /// Flush output and acknowledge with a restart line.
    Reset,
    /// Re-arm promiscuous reception on this channel (always in 11..=26).
    SetChannel(u8),
    /// Any other byte: no state change, no error.
    Ignore(u8),
}

/// The meaning of a command byte.
pub open spec fn command_of(b: u8) -> Command {
    if b == RESET {
        Command::Reset
    } else if is_channel(b) {
        Command::SetChannel(b)
    } else {
        Command::Ignore(b)
    }
}

/// Classifies a command byte.
pub fn decode_command(b: u8) -> (r: Command)
    ensures
        r == command_of(b),
{
    if b == RESET {
        Command::Reset
    } else if MIN_CHANNEL <= b && b <= MAX_CHANNEL {
        Command::SetChannel(b)
    } else {
        Command::Ignore(b)
    }
}

/// Exactly four markers followed by one command byte.
pub open spec fn is_command_frame(s: Seq<u8>) -> bool {
    &&& s.len() == COMMAND_FRAME_LEN
    &&& forall|i: int| 0 <= i < MARKER_COUNT ==> s[i] == MARKER
}

/// The command that a received frame carries, if it is a command frame.
pub open spec fn parse_spec(s: Seq<u8>) -> Option<Command> {
    if is_command_frame(s) {
        Some(command_of(s[4]))
    } else {
        None
    }
}

/// Reads the command out of the five bytes consumed after the marker trigger.
pub fn parse_command_frame(bytes: &[u8]) -> (r: Option<Command>)
    ensures
        r == parse_spec(bytes@),
{
    if bytes.len() != COMMAND_FRAME_LEN {
        return None;
    }
    let mut i: usize = 0;
    while i < MARKER_COUNT
        invariant
            bytes@.len() == COMMAND_FRAME_LEN,
            i <= MARKER_COUNT,
            forall|j: int| 0 <= j < i ==> bytes@[j] == MARKER,
        decreases MARKER_COUNT - i,
    {
        if bytes[i] != MARKER {
            return None;
        }
        i = i + 1;
    }
    Some(decode_command(bytes[4]))
}

/// The command frame that carries command byte `b`.
pub open spec fn command_frame(b: u8) -> Seq<u8> {
    seq![MARKER, MARKER, MARKER, MARKER, b]
}

/// Builds the five bytes that send command byte `b` to the device.
pub fn encode_command(b: u8) -> (r: Vec<u8>)
    ensures
        r@ == command_frame(b),
{
    let r = vec![MARKER, MARKER, MARKER, MARKER, b];
    assert(r@ =~= command_frame(b));
    r
}

/// Encoding then parsing a command byte gives back its meaning.
pub proof fn lemma_command_frame_parses(b: u8)
    ensures
        parse_spec(command_frame(b)) == Some(command_of(b)),
{
    assert(is_command_frame(command_frame(b)));
}

/// The acknowledgment line sent after a reset: `START\n`.
pub open spec fn reset_ack_spec() -> Seq<u8> {
    seq![0x53u8, 0x54u8, 0x41u8, 0x52u8, 0x54u8, 0x0Au8]
}

/// The bytes of the acknowledgment line sent after a reset.
pub fn reset_ack() -> (r: Vec<u8>)
    ensures
        r@ == reset_ack_spec(),
{
    let r = vec![0x53u8, 0x54u8, 0x41u8, 0x52u8, 0x54u8, 0x0Au8];
    assert(r@ =~= reset_ack_spec());
    r
}

} // verus!
