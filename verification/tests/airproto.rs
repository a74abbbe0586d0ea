use airos::airproto::types::{Size, WindowId};
use airos::airproto::wire::{frame, frame_len};

#[test]
fn window_id_equality() {
    assert_eq!(WindowId(1), WindowId(1));
    assert_ne!(WindowId(1), WindowId(2));
}

#[test]
fn size_fields() {
    let s = Size { width: 800, height: 600 };
    assert_eq!(s.width, 800);
    assert_eq!(s.height, 600);
}

#[test]
fn frame_prefixes_little_endian_length() {
    let f = frame(&[7, 8, 9]).unwrap();
    assert_eq!(f, vec![3, 0, 0, 0, 7, 8, 9]);
}

#[test]
fn frame_of_empty_payload_is_header_only() {
    assert_eq!(frame(&[]).unwrap(), vec![0, 0, 0, 0]);
}

#[test]
fn frame_header_of_long_payload() {
    let payload = vec![1u8; 300];
    let f = frame(&payload).unwrap();
    assert_eq!(&f[0..4], &[44, 1, 0, 0]);
    assert_eq!(f.len(), 304);
    assert_eq!(&f[4..], &payload[..]);
}

#[test]
fn frame_len_reads_little_endian() {
    assert_eq!(frame_len([44, 1, 0, 0]), 300);
    assert_eq!(frame_len([0xFF, 0xFF, 0xFF, 0xFF]), 0xFFFF_FFFF);
    assert_eq!(frame_len([0, 0, 0, 1]), 16_777_216);
}

#[test]
fn frame_then_frame_len_round_trips() {
    let payload = vec![5u8; 1000];
    let f = frame(&payload).unwrap();
    let header = [f[0], f[1], f[2], f[3]];
    assert_eq!(frame_len(header), payload.len());
    assert_eq!(&f[4..], &payload[..]);
}
