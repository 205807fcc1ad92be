//! The small helpers: decimal text of a byte, trimming of hex numbers,
//! port validation.

use rn2xx3::errors::{Error, RnResult};
use rn2xx3::utils::{ltrim_hex, u8_to_str, validate_port};

#[test]
fn all_digits() {
    let mut buf = [0; 3];
    for i in 0..=255 {
        let string = u8_to_str::<()>(i, &mut buf).unwrap();
        assert_eq!(string, &format!("{}", i));
    }
}

#[test]
fn buf_too_small() {
    let mut buf1 = [0; 1];
    let mut buf2 = [0; 2];
    let mut buf3 = [0; 3];

    assert!(u8_to_str::<()>(9, &mut buf1).is_ok());
    assert_eq!(u8_to_str::<()>(10, &mut buf1), Err(Error::BadParameter));

    assert!(u8_to_str::<()>(99, &mut buf2).is_ok());
    assert_eq!(u8_to_str::<()>(100, &mut buf2), Err(Error::BadParameter));

    assert!(u8_to_str::<()>(255, &mut buf3).is_ok());
    assert_eq!(u8_to_str::<()>(255, &mut buf2), Err(Error::BadParameter));
}

#[test]
fn no_prefix() {
    assert_eq!(ltrim_hex("1234"), "1234");
}

#[test]
fn single_prefix() {
    assert_eq!(ltrim_hex("0123"), "123");
}

#[test]
fn multi_prefix() {
    assert_eq!(ltrim_hex("0001"), "1");
}

#[test]
fn zero() {
    assert_eq!(ltrim_hex("0000"), "0");
}

#[test]
fn empty() {
    assert_eq!(ltrim_hex(""), "");
}

#[test]
fn nonhex() {
    assert_eq!(ltrim_hex("zzz"), "zzz");
}

#[test]
fn u8_to_str_keeps_rest_of_buffer() {
    let mut buf = [7u8; 5];
    let r: RnResult<&str, ()> = u8_to_str(42, &mut buf);
    assert_eq!(r, Ok("42"));
    assert_eq!(buf, [b'4', b'2', 7, 7, 7]);
}

#[test]
fn u8_to_str_leaves_small_buffer_alone() {
    let mut buf = [7u8; 2];
    let r: RnResult<&str, ()> = u8_to_str(200, &mut buf);
    assert_eq!(r, Err(Error::BadParameter));
    assert_eq!(buf, [7, 7]);
}

#[test]
fn ltrim_hex_keeps_inner_and_trailing_zeros() {
    assert_eq!(ltrim_hex("00100"), "100");
    assert_eq!(ltrim_hex("0"), "0");
    assert_eq!(ltrim_hex("0z0"), "z0");
}

#[test]
fn validate_port_bounds() {
    assert_eq!(validate_port(0, "bad"), Err("bad"));
    assert_eq!(validate_port(1, "bad"), Ok(()));
    assert_eq!(validate_port(223, "bad"), Ok(()));
    assert_eq!(validate_port(224, "bad"), Err("bad"));
    assert_eq!(validate_port(255, "bad"), Err("bad"));
}
