use datacloak_core::{
    mask_with_detections, DataCloakConfig, DataCloakEngine, DataCloakError, PIIDetectionResult,
    PIIType,
};

fn engine() -> DataCloakEngine {
    DataCloakEngine::new(DataCloakConfig::default()).unwrap()
}

fn detection(sample: &str, masked: &str) -> PIIDetectionResult {
    PIIDetectionResult {
        field_name: "text".to_string(),
        pii_type: "phone".to_string(),
        confidence_permille: 950,
        sample: sample.to_string(),
        masked: masked.to_string(),
    }
}

#[test]
fn test_masking() {
    let config = DataCloakConfig::default();
    let engine = DataCloakEngine::new(config).unwrap();

    let text = "Call 555-123-4567 or email john@test.com";
    let result = engine.mask_text(text).unwrap();

    assert!(result.masked_text.contains("***-***-4567"));
    assert!(result.masked_text.contains("j***@test.com"));
    assert_eq!(result.metadata.pii_items_found, 2);
}

#[test]
fn masking_result_fields() {
    let text = "Call 555-123-4567 or email john@test.com";
    let result = engine().mask_text(text).unwrap();
    assert_eq!(result.original_text, text);
    assert_eq!(result.masked_text, "Call ***-***-4567 or email j***@test.com");
    assert_eq!(result.metadata.fields_processed, 1);
    assert_eq!(result.detected_pii.len(), 2);
    assert_eq!(result.detected_pii[0].pii_type, "email");
}

#[test]
fn mask_text_rejects_text_over_limit() {
    let mut config = DataCloakConfig::default();
    config.max_text_length = 5;
    let engine = DataCloakEngine::new(config).unwrap();
    assert!(matches!(
        engine.mask_text("123-45-6789"),
        Err(DataCloakError::InputTooLarge { actual: 11, max: 5 })
    ));
}

#[test]
fn mask_text_without_pii_is_unchanged() {
    let result = engine().mask_text("nothing to see here").unwrap();
    assert_eq!(result.masked_text, "nothing to see here");
    assert_eq!(result.metadata.pii_items_found, 0);
}

#[test]
fn longer_card_run_is_replaced_before_inner_phone_run() {
    let result = engine().mask_text("Card 4111111111111111").unwrap();
    assert_eq!(result.metadata.pii_items_found, 2);
    assert_eq!(result.masked_text, "Card **** **** **** 1111");
}

#[test]
fn masked_output_is_not_detected_again() {
    let e = engine();
    let once = e.mask_text("Call 555-123-4567 or email john@test.com").unwrap();
    let again = e.detect_pii(&once.masked_text).unwrap();
    assert!(again.iter().all(|d| d.pii_type != "email" && d.pii_type != "phone"));
    let card = e.mask_text("Card 4111111111111111").unwrap();
    let again = e.detect_pii(&card.masked_text).unwrap();
    assert!(again.iter().all(|d| d.pii_type != "credit_card" && d.pii_type != "phone"));
}

#[test]
fn repeated_samples_are_all_replaced() {
    let result = engine().mask_text("123-45-6789 and again 123-45-6789").unwrap();
    assert_eq!(result.masked_text, "***-**-6789 and again ***-**-6789");
}

#[test]
fn with_detections_goes_longest_first() {
    let ds = vec![detection("4567", "[short]"), detection("123-4567", "[long]")];
    assert_eq!(mask_with_detections("x 123-4567 y 4567", &ds), "x [long] y [short]");
}

#[test]
fn with_detections_equal_lengths_keep_order() {
    let ds = vec![detection("ab", "cd"), detection("cd", "ef")];
    assert_eq!(mask_with_detections("ab", &ds), "ef");
    let ds = vec![detection("cd", "ef"), detection("ab", "cd")];
    assert_eq!(mask_with_detections("ab", &ds), "cd");
}

#[test]
fn with_detections_empty_list() {
    assert_eq!(mask_with_detections("keep me", &[]), "keep me");
}

#[test]
fn with_detections_empty_sample_changes_nothing() {
    let ds = vec![detection("", "X")];
    assert_eq!(mask_with_detections("abc", &ds), "abc");
}

#[test]
fn mask_value_email() {
    let e = engine();
    assert_eq!(e.mask_value("john@test.com", PIIType::Email), "j***@test.com");
    assert_eq!(e.mask_value("@test.com", PIIType::Email), "***@domain.com");
    assert_eq!(e.mask_value("no-at-sign", PIIType::Email), "***@domain.com");
}

#[test]
fn mask_value_phone() {
    let e = engine();
    assert_eq!(e.mask_value("(555) 123-4567", PIIType::Phone), "***-***-4567");
    assert_eq!(e.mask_value("1-2-3", PIIType::Phone), "***-***-****");
}

#[test]
fn mask_value_ssn() {
    let e = engine();
    assert_eq!(e.mask_value("123-45-6789", PIIType::Ssn), "***-**-6789");
    assert_eq!(e.mask_value("abcd", PIIType::Ssn), "***-**-abcd");
    assert_eq!(e.mask_value("abc", PIIType::Ssn), "***-**-****");
}

#[test]
fn mask_value_credit_card() {
    let e = engine();
    assert_eq!(e.mask_value("4111 1111 1111 1234", PIIType::CreditCard), "**** **** **** 1234");
    assert_eq!(e.mask_value("12-3", PIIType::CreditCard), "**** **** **** ****");
}
