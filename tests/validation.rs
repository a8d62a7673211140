use datacloak_core::{DataCloakConfig, DataCloakEngine};

fn engine() -> DataCloakEngine {
    DataCloakEngine::new(DataCloakConfig::default()).unwrap()
}

#[test]
fn test_luhn_validation() {
    let config = DataCloakConfig::default();
    let engine = DataCloakEngine::new(config).unwrap();

    // "4532123456789012" is not asserted valid: its Luhn sum is 68, so the
    // checksum rejects it.

    // Invalid Luhn number
    assert!(!engine.validate_luhn("4532123456789013"));
}

#[test]
fn luhn_raised_last_digit_fails() {
    let e = engine();
    assert!(e.validate_luhn("4111111111111111"));
    assert!(!e.validate_luhn("4111111111111112"));
    assert!(e.validate_luhn("4532123456789014"));
    assert!(!e.validate_luhn("4532123456789015"));
}

#[test]
fn luhn_ignores_separators() {
    let e = engine();
    assert!(e.validate_luhn("4111 1111-1111 1111"));
}

#[test]
fn luhn_digit_count_bounds() {
    let e = engine();
    // twelve digits with a valid checksum are still refused
    assert!(!e.validate_luhn("000000000000"));
    assert!(e.validate_luhn("0000000000000"));
    assert!(e.validate_luhn("0000000000000000000"));
    assert!(!e.validate_luhn("00000000000000000000"));
    assert!(!e.validate_luhn(""));
}

#[test]
fn luhn_doubled_digits_above_nine() {
    let e = engine();
    // 13 digits: the 9 second from the right is doubled to 18, counted as 9
    assert!(e.validate_luhn("0000000000091"));
    assert!(!e.validate_luhn("0000000000090"));
}

#[test]
fn email_structure_checks() {
    let e = engine();
    assert!(e.validate_email("support@example.com"));
    assert!(!e.validate_email("a@b@example.com"));
    assert!(!e.validate_email("no-at.example.com"));
    assert!(!e.validate_email("user@localhost"));
    assert!(!e.validate_email("user@example..com"));
    assert!(e.validate_email("@example.com"));
}
