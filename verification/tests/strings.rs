use lvm2::cstring::{text_from_c, to_c_string};
use lvm2::context::push_i32_decimal;
use lvm2::{Error, Mode};

#[test]
fn mode_c_strings() {
    assert_eq!(Mode::Read.to_c_string(), vec![b'r', 0u8]);
    assert_eq!(Mode::ReadWrite.to_c_string(), vec![b'w', 0u8]);
}

#[test]
fn c_string_appends_nul() {
    assert_eq!(to_c_string("vg0").unwrap(), vec![b'v', b'g', b'0', 0u8]);
    assert_eq!(to_c_string("").unwrap(), vec![0u8]);
}

#[test]
fn c_string_refuses_nul() {
    let e = to_c_string("ab\0c\0").unwrap_err();
    assert_eq!(e.nul_position(), 2);
    let e = to_c_string("\0").unwrap_err();
    assert_eq!(e.nul_position(), 0);
}

#[test]
fn c_string_round_trip() {
    let bytes = to_c_string("größe").unwrap();
    assert_eq!(text_from_c(bytes), Some(String::from("größe")));
}

#[test]
fn text_from_c_stops_at_nul() {
    assert_eq!(text_from_c(vec![b'a', b'b', 0u8, b'c']), Some(String::from("ab")));
    assert_eq!(text_from_c(vec![b'x', b'y']), Some(String::from("xy")));
    assert_eq!(text_from_c(vec![0u8, 0xffu8]), Some(String::new()));
}

#[test]
fn text_from_c_refuses_invalid_utf8() {
    assert_eq!(text_from_c(vec![b'a', 0xffu8, 0u8]), None);
    assert_eq!(text_from_c(vec![0xc3u8]), None);
}

#[test]
fn decimal_numbers() {
    let mut s = String::new();
    push_i32_decimal(&mut s, 0);
    assert_eq!(s, "0");
    let mut s = String::from("x");
    push_i32_decimal(&mut s, 1907);
    assert_eq!(s, "x1907");
    let mut s = String::new();
    push_i32_decimal(&mut s, -42);
    assert_eq!(s, "-42");
    let mut s = String::new();
    push_i32_decimal(&mut s, i32::MIN);
    assert_eq!(s, "-2147483648");
    let mut s = String::new();
    push_i32_decimal(&mut s, i32::MAX);
    assert_eq!(s, "2147483647");
}

#[test]
fn error_text() {
    let e = Error::new(5, String::from("Volume group not found"));
    assert_eq!(e.errno(), 5);
    assert_eq!(e.message(), "Volume group not found");
    assert_eq!(
        e.to_string(),
        "An error occurred with error code 5. (Volume group not found)"
    );
    let e = Error::new(-1, String::new());
    assert_eq!(e.to_string(), "An error occurred with error code -1. ()");
}

#[test]
fn error_from_c_message() {
    let e = Error::from_c(22, vec![b'b', b'a', b'd', 0u8]).unwrap();
    assert_eq!(e.errno(), 22);
    assert_eq!(e.message(), "bad");
    assert!(Error::from_c(22, vec![0xfeu8, 0u8]).is_none());
}
