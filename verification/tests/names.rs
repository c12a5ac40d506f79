use signpost::name::{CName, NulError};

#[test]
fn name_keeps_its_bytes_and_gains_a_terminator() {
    let name = CName::new("Compute").unwrap();
    assert_eq!(name.as_bytes_with_nul(), b"Compute\0");
}

#[test]
fn empty_name_is_just_the_terminator() {
    let name = CName::new("").unwrap();
    assert_eq!(name.as_bytes_with_nul(), b"\0");
}

#[test]
fn name_outside_ascii_is_stored_as_utf8() {
    let name = CName::new("caf\u{e9}").unwrap();
    assert_eq!(name.as_bytes_with_nul(), &[b'c', b'a', b'f', 0xC3, 0xA9, 0]);
}

#[test]
fn name_with_zero_byte_is_rejected_at_the_first_one() {
    assert_eq!(CName::new("ab\0cd\0"), Err(NulError { position: 2 }));
}

#[test]
fn name_of_a_single_zero_byte_is_rejected() {
    assert_eq!(CName::new("\0"), Err(NulError { position: 0 }));
}

#[test]
fn name_with_trailing_zero_byte_is_rejected() {
    assert_eq!(CName::new("Event\0"), Err(NulError { position: 5 }));
}

#[test]
fn bytes_are_validated_like_text() {
    let name = CName::from_bytes(&[0xFF, 0x01, 0x80]).unwrap();
    assert_eq!(name.as_bytes_with_nul(), &[0xFF, 0x01, 0x80, 0x00]);
    assert_eq!(CName::from_bytes(&[1, 2, 0, 3]), Err(NulError { position: 2 }));
}

#[test]
fn names_compare_by_content() {
    assert_eq!(CName::new("Interval").unwrap(), CName::from_bytes(b"Interval").unwrap());
    assert_ne!(CName::new("Interval").unwrap(), CName::new("Event").unwrap());
}
