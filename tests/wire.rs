use wpan_sniffer::wire::{encode_wire_frame, write_wire_frame};

#[test]
fn wire_frame_is_length_then_payload() {
    for len in [0usize, 1, 20, 127, 128] {
        let data: Vec<u8> = (0..len).map(|i| (i * 7 + 3) as u8).collect();
        let w = encode_wire_frame(&data);
        assert_eq!(w.len(), 1 + len);
        assert_eq!(w[0] as usize, len);
        assert_eq!(&w[1..], &data[..]);
    }
}

#[test]
fn empty_frame_is_one_zero_byte() {
    assert_eq!(encode_wire_frame(&[]), vec![0u8]);
}

#[test]
fn oversized_frame_is_cut_to_128() {
    let data: Vec<u8> = (0..200usize).map(|i| i as u8).collect();
    let w = encode_wire_frame(&data);
    assert_eq!(w.len(), 129);
    assert_eq!(w[0], 128);
    assert_eq!(&w[1..], &data[..128]);
}

#[test]
fn write_appends_to_existing_output() {
    let mut out = vec![9u8, 9];
    write_wire_frame(&mut out, &[1, 2, 3]);
    assert_eq!(out, vec![9, 9, 3, 1, 2, 3]);
}
