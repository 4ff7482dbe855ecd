use smartcard_apdu::apdu::{append_prefix, get_response_command, split_response};
use smartcard_apdu::TransmitResult;

#[test]
fn split_takes_last_two_bytes_as_status() {
    let r = split_response(&[0x01, 0x02, 0x03, 0x6A, 0x82]);
    assert_eq!(r, TransmitResult { data: vec![0x01, 0x02, 0x03], sw1: 0x6A, sw2: 0x82 });
}

#[test]
fn split_of_bare_success_has_no_body() {
    let r = split_response(&[0x90, 0x00]);
    assert_eq!(r, TransmitResult { data: vec![], sw1: 0x90, sw2: 0x00 });
    assert!(r.is_success());
    assert!(!r.is_continuation());
}

#[test]
fn split_of_empty_response_defaults_to_zero() {
    let r = split_response(&[]);
    assert_eq!(r, TransmitResult { data: vec![], sw1: 0, sw2: 0 });
}

#[test]
fn split_of_single_byte_defaults_to_zero() {
    let r = split_response(&[0x90]);
    assert_eq!(r, TransmitResult { data: vec![], sw1: 0, sw2: 0 });
    assert!(!r.is_success());
}

#[test]
fn split_recognises_continuation() {
    let r = split_response(&[0xAA, 0x61, 0x10]);
    assert!(r.is_continuation());
    assert!(!r.is_success());
    assert_eq!(r.data, vec![0xAA]);
    assert_eq!(r.sw2, 0x10);
}

#[test]
fn get_response_asks_for_remaining_bytes() {
    assert_eq!(get_response_command(5), vec![0x00, 0xC0, 0x00, 0x00, 0x05]);
    assert_eq!(get_response_command(0), vec![0x00, 0xC0, 0x00, 0x00, 0x00]);
    assert_eq!(get_response_command(255), vec![0x00, 0xC0, 0x00, 0x00, 0xFF]);
}

#[test]
fn get_response_is_capped_at_one_byte() {
    assert_eq!(get_response_command(256), vec![0x00, 0xC0, 0x00, 0x00, 0xFF]);
    assert_eq!(get_response_command(70_000), vec![0x00, 0xC0, 0x00, 0x00, 0xFF]);
}

#[test]
fn append_prefix_copies_leading_bytes_only() {
    let mut target = vec![1u8, 2];
    append_prefix(&mut target, &[3, 4, 5, 6], 2);
    assert_eq!(target, vec![1, 2, 3, 4]);
    append_prefix(&mut target, &[7, 8], 0);
    assert_eq!(target, vec![1, 2, 3, 4]);
}
