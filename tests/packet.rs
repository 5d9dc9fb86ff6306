use proxy::error::Error;
use proxy::radio::{receive_frame, send_frame, Packet};

#[test]
fn encode_lays_out_header_then_payload() {
    let p = Packet::new(1, 2, vec![10, 20, 30], true);
    assert_eq!(p.as_bytes(), vec![6, 2, 1, 0x40, 10, 20, 30]);
}

#[test]
fn encode_without_ack_request_has_zero_control() {
    let p = Packet::new(7, 9, vec![5], false);
    assert_eq!(p.as_bytes(), vec![4, 9, 7, 0, 5]);
    assert!(!p.ack_requested());
}

#[test]
fn round_trip_with_payload() {
    let p = Packet::new(3, 4, vec![1, 2, 3, 4, 5], true);
    let bytes = p.as_bytes();
    let q = Packet::from_bytes(&bytes).unwrap();
    assert_eq!(q.as_bytes(), bytes);
    assert!(q.ack_requested());
    assert!(q.is_to(4));
    assert_eq!(q.message(), vec![1, 2, 3, 4, 5]);
}

#[test]
fn round_trip_empty_message() {
    let p = Packet::new(3, 4, Vec::new(), false);
    let bytes = p.as_bytes();
    assert_eq!(bytes, vec![3, 4, 3, 0]);
    let q = Packet::from_bytes(&bytes).unwrap();
    assert_eq!(q.as_bytes(), bytes);
    assert_eq!(q.message(), Vec::<u8>::new());
}

#[test]
fn round_trip_largest_payload() {
    let payload: Vec<u8> = (0..252u32).map(|i| i as u8).collect();
    let p = Packet::new(1, 2, payload.clone(), false);
    let bytes = p.as_bytes();
    assert_eq!(bytes[0], 255);
    let q = Packet::from_bytes(&bytes).unwrap();
    assert_eq!(q.message(), payload);
}

#[test]
fn decode_ignores_bytes_past_the_frame() {
    let mut buffer = vec![0u8; 64];
    buffer[0] = 5;
    buffer[1] = 1;
    buffer[2] = 9;
    buffer[3] = 0x40;
    buffer[4] = 0xAA;
    buffer[5] = 0xBB;
    buffer[6] = 0xCC;
    let q = Packet::from_bytes(&buffer).unwrap();
    assert!(q.is_to(1));
    assert!(q.ack_requested());
    assert_eq!(q.message(), vec![0xAA, 0xBB]);
}

#[test]
fn decode_rejects_length_past_buffer() {
    let r = Packet::from_bytes(&[10, 1, 2, 3]);
    assert_eq!(r.unwrap_err(), Error::IndexOutOfRange { size: 4, index: 10 });
}

#[test]
fn decode_rejects_length_equal_to_buffer() {
    let r = Packet::from_bytes(&[4, 1, 2, 3]);
    assert_eq!(r.unwrap_err(), Error::IndexOutOfRange { size: 4, index: 4 });
}

#[test]
fn decode_rejects_empty_buffer() {
    let r = Packet::from_bytes(&[]);
    assert_eq!(r.unwrap_err(), Error::IndexOutOfRange { size: 0, index: 0 });
}

#[test]
fn decode_rejects_buffer_without_header() {
    let r = Packet::from_bytes(&[1, 5]);
    assert_eq!(r.unwrap_err(), Error::IndexOutOfRange { size: 2, index: 3 });
}

#[test]
fn ack_swaps_addresses_and_clears_flags() {
    let p = Packet::new(1, 2, vec![9, 9], true);
    let ack = Packet::ack_from(&p);
    assert_eq!(ack.as_bytes(), vec![3, 1, 2, 0x80]);
    assert!(!ack.ack_requested());
    assert!(ack.is_to(1));
}

#[test]
fn ack_of_an_ack_never_requests_one() {
    let p = Packet::from_bytes(&[3, 5, 6, 0xC0]).unwrap();
    let ack = Packet::ack_from(&p);
    assert_eq!(ack.as_bytes(), vec![3, 6, 5, 0x80]);
    assert!(!ack.ack_requested());
}

#[test]
fn receive_acknowledges_frames_for_the_gateway() {
    let frame = Packet::new(5, 1, vec![0x02], true).as_bytes();
    let rec = receive_frame(&frame, 1).unwrap();
    assert_eq!(rec.message, vec![0x02]);
    assert_eq!(rec.ack, Some(vec![3, 5, 1, 0x80]));
}

#[test]
fn receive_does_not_acknowledge_frames_for_others() {
    let frame = Packet::new(5, 7, vec![0x02], true).as_bytes();
    let rec = receive_frame(&frame, 1).unwrap();
    assert_eq!(rec.message, vec![0x02]);
    assert_eq!(rec.ack, None);
}

#[test]
fn receive_does_not_acknowledge_unrequested() {
    let frame = Packet::new(5, 1, vec![0x08, 1], false).as_bytes();
    let rec = receive_frame(&frame, 1).unwrap();
    assert_eq!(rec.message, vec![0x08, 1]);
    assert_eq!(rec.ack, None);
}

#[test]
fn receive_reports_decode_errors() {
    let r = receive_frame(&[9, 1, 2, 3], 1);
    assert!(matches!(r, Err(Error::IndexOutOfRange { size: 4, index: 9 })));
}

#[test]
fn send_frame_never_requests_ack() {
    assert_eq!(send_frame(1, 5, vec![7, 8]), vec![5, 5, 1, 0, 7, 8]);
}

#[test]
fn error_constructors() {
    assert_eq!(Error::new_option("x"), Error::OptionError("x"));
    assert_eq!(Error::new_result("y"), Error::ResultError("y"));
    assert_eq!(Error::new_index_out_of_range(3, 4), Error::IndexOutOfRange { size: 3, index: 4 });
}
