use wpan_sniffer::protocol::{
    decode_command, encode_command, parse_command_frame, reset_ack, Command, MARKER, RESET,
};

#[test]
fn reset_byte_is_reset() {
    assert_eq!(decode_command(0x52), Command::Reset);
    assert_eq!(RESET, b'R');
    assert_eq!(MARKER, b'+');
}

#[test]
fn channel_bytes_select_channels() {
    for c in 11u8..=26 {
        assert_eq!(decode_command(c), Command::SetChannel(c));
    }
}

#[test]
fn other_bytes_are_ignored() {
    for b in [0u8, 10, 27, 0x2B, 0x51, 0x53, 255] {
        assert_eq!(decode_command(b), Command::Ignore(b));
    }
}

#[test]
fn encode_command_frames_the_byte() {
    assert_eq!(encode_command(RESET), vec![0x2B, 0x2B, 0x2B, 0x2B, 0x52]);
    assert_eq!(encode_command(15), b"++++\x0f".to_vec());
}

#[test]
fn parse_accepts_command_frames() {
    assert_eq!(parse_command_frame(b"++++R"), Some(Command::Reset));
    assert_eq!(parse_command_frame(&[0x2B, 0x2B, 0x2B, 0x2B, 0x0F]), Some(Command::SetChannel(15)));
    assert_eq!(parse_command_frame(&[0x2B, 0x2B, 0x2B, 0x2B, 0x1B]), Some(Command::Ignore(27)));
}

#[test]
fn parse_rejects_malformed_frames() {
    assert_eq!(parse_command_frame(b"+++R"), None);
    assert_eq!(parse_command_frame(b"++++RR"), None);
    assert_eq!(parse_command_frame(b"+-++R"), None);
    assert_eq!(parse_command_frame(b""), None);
}

#[test]
fn reset_ack_is_start_line() {
    assert_eq!(reset_ack(), b"START\n".to_vec());
}
