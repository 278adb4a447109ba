use smartcard::error::CardError;
use smartcard::pin::{
    change_pin_apdu, check_pin, set_pin_apdu, verify_pin_apdu, verify_pin_if_needed,
};

#[test]
fn pin_length_is_checked_in_bytes() {
    assert!(!check_pin(""));
    assert!(!check_pin("1234567"));
    assert!(check_pin("12345678"));
    assert!(check_pin("1234567890123456"));
    assert!(!check_pin("12345678901234567"));
    assert!(check_pin("éééé"));
    assert!(!check_pin("ééé"));
    assert!(!check_pin("ééééééééé"));
}

#[test]
fn verify_command_carries_the_pin() {
    assert_eq!(
        verify_pin_apdu("1234"),
        vec![0x80, 0x20, 0x00, 0x00, 0x04, b'1', b'2', b'3', b'4']
    );
    assert_eq!(verify_pin_apdu(""), vec![0x80, 0x20, 0x00, 0x00]);
}

#[test]
fn verification_is_needed_for_a_pin_that_is_not_empty() {
    assert_eq!(verify_pin_if_needed(&None), None);
    assert_eq!(verify_pin_if_needed(&Some(String::new())), None);
    assert_eq!(
        verify_pin_if_needed(&Some("12345678".to_string())),
        Some(vec![0x80, 0x20, 0x00, 0x00, 0x08, b'1', b'2', b'3', b'4', b'5', b'6', b'7', b'8'])
    );
}

#[test]
fn set_pin_refuses_bad_lengths() {
    assert_eq!(set_pin_apdu("1234567"), Err(CardError::Validation));
    assert_eq!(set_pin_apdu("12345678901234567"), Err(CardError::Validation));
    assert_eq!(
        set_pin_apdu("12345678"),
        Ok(vec![0x80, 0x22, 0x00, 0x00, 0x08, b'1', b'2', b'3', b'4', b'5', b'6', b'7', b'8'])
    );
}

#[test]
fn change_pin_joins_old_and_new() {
    assert_eq!(
        change_pin_apdu("old", "newpin12"),
        Ok(vec![
            0x80, 0x21, 0x03, 0x00, 0x0B, b'o', b'l', b'd', b'n', b'e', b'w', b'p', b'i', b'n',
            b'1', b'2'
        ])
    );
    assert_eq!(
        change_pin_apdu("", "newpin12"),
        Ok(vec![0x80, 0x21, 0x00, 0x00, 0x08, b'n', b'e', b'w', b'p', b'i', b'n', b'1', b'2'])
    );
}

#[test]
fn change_pin_checks_the_new_pin_only() {
    assert_eq!(change_pin_apdu("12345678", "short"), Err(CardError::Validation));
    assert_eq!(change_pin_apdu("12345678", "12345678901234567"), Err(CardError::Validation));
    assert!(change_pin_apdu("x", "1234567890123456").is_ok());
}
