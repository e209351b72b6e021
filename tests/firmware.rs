use wpan_sniffer::config::RadioConfig;
use wpan_sniffer::firmware::{ForwardError, Sniffer};
use wpan_sniffer::host::{decode_block, BLOCK_LEN};
use wpan_sniffer::protocol::{encode_command, Command};

fn config_of(s: &Sniffer) -> (u8, bool, bool) {
    (s.config.channel, s.config.promiscuous, s.config.rx_when_idle)
}

#[test]
fn starts_on_channel_fifteen() {
    let s = Sniffer::new();
    assert_eq!(config_of(&s), (15, true, true));
    assert!(s.armed);
    assert!(!s.pending);
    assert!(s.rx_queue.is_empty());
    assert!(s.serial_out.is_empty());
}

#[test]
fn every_channel_command_rearms_on_that_channel() {
    for c in 11u8..=26 {
        let mut s = Sniffer::new();
        assert_eq!(s.on_command(&encode_command(c)), Some(Command::SetChannel(c)));
        assert_eq!(config_of(&s), (c, true, true));
        assert!(s.armed);
        assert!(s.serial_out.is_empty());
    }
}

#[test]
fn other_command_bytes_change_nothing() {
    for b in [0u8, 10, 27, 0x2B, 200, 255] {
        let mut s = Sniffer::new();
        s.on_command(&encode_command(20));
        s.radio_receive(vec![1, 2]);
        assert_eq!(s.on_command(&encode_command(b)), Some(Command::Ignore(b)));
        assert_eq!(config_of(&s), (20, true, true));
        assert!(s.armed);
        assert!(s.pending);
        assert_eq!(s.rx_queue, vec![vec![1u8, 2]]);
        assert!(s.serial_out.is_empty());
    }
}

#[test]
fn malformed_command_changes_nothing() {
    let mut s = Sniffer::new();
    assert_eq!(s.on_command(b"+++\x0f"), None);
    assert_eq!(s.on_command(b"-+++\x0f"), None);
    assert_eq!(config_of(&s), (15, true, true));
    assert!(s.serial_out.is_empty());
}

#[test]
fn reset_appends_ack_line() {
    let mut s = Sniffer::new();
    s.forward(&[7]).unwrap();
    assert_eq!(s.on_command(b"++++R"), Some(Command::Reset));
    assert_eq!(s.serial_out, b"\x01\x07START\n".to_vec());
    assert_eq!(config_of(&s), (15, true, true));
}

#[test]
fn callback_only_marks_pending() {
    let mut s = Sniffer::new();
    s.rx_available();
    assert!(s.pending);
    assert!(s.serial_out.is_empty());
    assert!(s.run_deferred());
    assert!(!s.pending);
    assert!(s.serial_out.is_empty());
    assert!(!s.run_deferred());
}

#[test]
fn coalesced_events_forward_both_frames_in_order() {
    let mut s = Sniffer::new();
    s.radio_receive(vec![0xA1, 0xA2]);
    s.radio_receive(vec![0xB1, 0xB2, 0xB3]);
    assert!(s.run_deferred());
    assert_eq!(s.serial_out, vec![2, 0xA1, 0xA2, 3, 0xB1, 0xB2, 0xB3]);
    assert!(s.rx_queue.is_empty());
    assert!(!s.run_deferred());
    assert_eq!(s.serial_out.len(), 7);
}

#[test]
fn get_raw_received_takes_oldest_first() {
    let mut s = Sniffer::new();
    assert_eq!(s.get_raw_received(), None);
    s.radio_receive(vec![1]);
    s.radio_receive(vec![2]);
    assert_eq!(s.get_raw_received(), Some(vec![1]));
    assert_eq!(s.get_raw_received(), Some(vec![2]));
    assert_eq!(s.get_raw_received(), None);
}

#[test]
fn alternating_commands_and_drains_keep_whole_state() {
    let mut s = Sniffer::new();
    let mut expected: Vec<u8> = Vec::new();
    for round in 0..200u32 {
        let c = 11 + (round % 16) as u8;
        let frame: Vec<u8> = (0..(round % 130) as usize).map(|i| i as u8).collect();
        s.radio_receive(frame.clone());
        s.on_command(&encode_command(c));
        assert_eq!(config_of(&s), (c, true, true));
        assert!(s.armed);
        s.on_command(&encode_command(30));
        s.run_deferred();
        let n = frame.len().min(128);
        expected.push(n as u8);
        expected.extend_from_slice(&frame[..n]);
        assert_eq!(s.serial_out, expected);
        assert_eq!(config_of(&s), (c, true, true));
    }
}

#[test]
fn for_channel_rejects_out_of_range() {
    assert!(RadioConfig::for_channel(10).is_none());
    assert!(RadioConfig::for_channel(27).is_none());
    let c = RadioConfig::for_channel(11).unwrap();
    assert_eq!((c.channel, c.promiscuous, c.rx_when_idle), (11, true, true));
    let i = RadioConfig::initial();
    assert_eq!(i.channel, 15);
}

#[test]
fn end_to_end_reset_channel_and_frame() {
    let mut s = Sniffer::new();
    assert_eq!(s.on_command(&[0x2B, 0x2B, 0x2B, 0x2B, 0x52]), Some(Command::Reset));
    assert_eq!(s.serial_out, b"START\n".to_vec());
    s.on_command(&[0x2B, 0x2B, 0x2B, 0x2B, 0x0F]);
    assert_eq!(config_of(&s), (15, true, true));
    assert!(s.armed);
    let frame: Vec<u8> = (0..20u8).map(|i| i.wrapping_mul(13)).collect();
    s.radio_receive(frame.clone());
    assert!(s.run_deferred());
    let wire = s.serial_out[6..].to_vec();
    assert_eq!(wire.len(), 21);
    assert_eq!(wire[0], 0x14);
    assert_eq!(&wire[1..], &frame[..]);
    let mut block = wire.clone();
    block.resize(BLOCK_LEN, 0);
    let rec = decode_block(&block, 1000).unwrap();
    assert_eq!(rec.captured_len, 20);
    assert_eq!(rec.original_len, 129);
    assert_eq!(rec.payload, frame);
}

#[test]
fn transport_down_drops_frames_and_capture_continues() {
    let mut s = Sniffer::new();
    s.set_link(false);
    assert_eq!(s.forward(&[1, 2]), Err(ForwardError::Transport));
    assert!(s.serial_out.is_empty());
    s.radio_receive(vec![5, 6]);
    s.radio_receive(vec![7]);
    assert!(s.run_deferred());
    assert!(s.rx_queue.is_empty());
    assert!(s.serial_out.is_empty());
    s.set_link(true);
    s.radio_receive(vec![8]);
    assert!(s.run_deferred());
    assert_eq!(s.serial_out, vec![1, 8]);
    assert_eq!(s.forward(&[]), Ok(()));
    assert_eq!(s.serial_out, vec![1, 8, 0]);
}
