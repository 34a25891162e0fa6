use trilobyte::errors::OpError;
use trilobyte::keygen::generate;
use trilobyte::reader::chunk_step;
use trilobyte::xor::{xor_apply, xor_checked};

#[test]
fn xor_round_trip_recovers_data() {
    let data: Vec<u8> = vec![0x00, 0x41, 0xff, 0x10, 0x7f];
    let key: Vec<u8> = vec![0xaa, 0x55, 0x01, 0xfe, 0x00, 0x99];
    let cipher = xor_apply(&data, &key);
    let back = xor_apply(&cipher, &key);
    assert_eq!(back, data);
}

#[test]
fn xor_exact_value() {
    let data: Vec<u8> = vec![0x41, 0x42, 0x43];
    let key: Vec<u8> = vec![0x01, 0x02, 0x03];
    let cipher = xor_apply(&data, &key);
    assert_eq!(cipher, vec![0x40, 0x40, 0x40]);
}

#[test]
fn xor_empty_data() {
    let data: Vec<u8> = vec![];
    let key: Vec<u8> = vec![1, 2, 3];
    assert_eq!(xor_apply(&data, &key), Vec::<u8>::new());
}

#[test]
fn xor_checked_rejects_short_key() {
    let data: Vec<u8> = vec![1, 2, 3];
    let key: Vec<u8> = vec![9, 9];
    let r = xor_checked(&data, &key);
    assert_eq!(r, Err(OpError::KeyTooShort));
}

#[test]
fn xor_checked_accepts_covering_key() {
    let data: Vec<u8> = vec![1, 2, 3];
    let key: Vec<u8> = vec![9, 9, 9, 9];
    let r = xor_checked(&data, &key).unwrap();
    assert_eq!(r, vec![8, 11, 10]);
}

#[test]
fn generate_length_zero() {
    assert_eq!(generate(0).len(), 0);
}

#[test]
fn generate_exact_lengths() {
    assert_eq!(generate(1).len(), 1);
    assert_eq!(generate(5).len(), 5);
    assert_eq!(generate(1024).len(), 1024);
    assert_eq!(generate(1025).len(), 1025);
}

#[test]
fn chunk_step_appends_and_continues() {
    let mut acc: Vec<u8> = vec![7];
    let chunk: Vec<u8> = vec![1, 2, 3, 4];
    let more = chunk_step(&mut acc, &chunk, 4);
    assert!(more);
    assert_eq!(acc, vec![7, 1, 2, 3, 4]);
}

#[test]
fn chunk_step_short_read_stops() {
    let mut acc: Vec<u8> = Vec::new();
    let chunk: Vec<u8> = vec![1, 2, 3, 4];
    let more = chunk_step(&mut acc, &chunk, 2);
    assert!(!more);
    assert_eq!(acc, vec![1, 2]);
}

#[test]
fn chunk_step_empty_read_stops() {
    let mut acc: Vec<u8> = vec![5];
    let chunk: Vec<u8> = vec![1, 2, 3, 4];
    let more = chunk_step(&mut acc, &chunk, 0);
    assert!(!more);
    assert_eq!(acc, vec![5]);
}
