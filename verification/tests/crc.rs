use iso14443::type_a::crc::{append_crc_a, crc_a};

#[test]
fn crc_a_ex1() {
    assert_eq!(append_crc_a(&[0x00, 0x00]), vec![0x00, 0x00, 0xA0, 0x1E]);
}

#[test]
fn crc_a_ex2() {
    assert_eq!(append_crc_a(&[0x12, 0x34]), vec![0x12, 0x34, 0x26, 0xCF]);
}

#[test]
fn crc_a_hlta() {
    assert_eq!(crc_a(&[0x50, 0x00]), (0x57, 0xcd));
}

#[test]
fn crc_a_rats() {
    assert_eq!(crc_a(&[0xe0, 0x50]), (0xbc, 0xa5));
}

#[test]
fn crc_a_deselect() {
    assert_eq!(crc_a(&[0xc2]), (0xe0, 0xb4));
}
