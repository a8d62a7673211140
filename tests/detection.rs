use datacloak_core::engine::{ACCEPT_THRESHOLD, BASE_CONFIDENCE, PENALIZED_CONFIDENCE};
use datacloak_core::{
    detections_from_matches, CreditCardValidation, DataCloakConfig, DataCloakEngine,
    DataCloakError, EmailValidation, PIIType,
};

fn engine() -> DataCloakEngine {
    DataCloakEngine::new(DataCloakConfig::default()).unwrap()
}

#[test]
fn test_email_detection() {
    let config = DataCloakConfig::default();
    let engine = DataCloakEngine::new(config).unwrap();

    let text = "Contact us at support@example.com for help";
    let results = engine.detect_pii(text).unwrap();

    assert_eq!(results.len(), 1);
    assert_eq!(results[0].pii_type, "email");
    assert_eq!(results[0].sample, "support@example.com");
}

#[test]
fn email_detection_fields() {
    let results = engine().detect_pii("Contact us at support@example.com for help").unwrap();
    assert_eq!(results.len(), 1);
    assert_eq!(results[0].field_name, "text");
    assert_eq!(results[0].confidence_permille, 950);
    assert_eq!(results[0].masked, "s***@example.com");
}

#[test]
fn default_config_values() {
    let c = DataCloakConfig::default();
    assert!(c.enable_redos_protection);
    assert_eq!(c.email_validation, EmailValidation::Validator);
    assert_eq!(c.credit_card_validation, CreditCardValidation::Luhn);
    assert_eq!(c.max_text_length, 100_000);
    assert_eq!(c.regex_timeout_ms, 1000);
}

#[test]
fn confidence_constants() {
    assert_eq!(BASE_CONFIDENCE, 950);
    assert_eq!(PENALIZED_CONFIDENCE, 665);
    assert_eq!(ACCEPT_THRESHOLD, 600);
}

#[test]
fn detect_rejects_text_over_limit() {
    let mut config = DataCloakConfig::default();
    config.max_text_length = 10;
    let engine = DataCloakEngine::new(config).unwrap();
    match engine.detect_pii("a@bcd.com is here") {
        Err(DataCloakError::InputTooLarge { actual, max }) => {
            assert_eq!(actual, 17);
            assert_eq!(max, 10);
        }
        other => panic!("unexpected: {:?}", other),
    }
}

#[test]
fn detect_accepts_text_at_limit() {
    let mut config = DataCloakConfig::default();
    config.max_text_length = 9;
    let engine = DataCloakEngine::new(config).unwrap();
    let results = engine.detect_pii("a@bcd.com").unwrap();
    assert_eq!(results.len(), 1);
}

#[test]
fn limit_counts_bytes() {
    let mut config = DataCloakConfig::default();
    config.max_text_length = 3;
    let engine = DataCloakEngine::new(config).unwrap();
    // two characters, four bytes
    assert!(matches!(
        engine.detect_pii("éé"),
        Err(DataCloakError::InputTooLarge { actual: 4, max: 3 })
    ));
}

#[test]
fn empty_text_has_no_detections() {
    assert!(engine().detect_pii("").unwrap().is_empty());
}

#[test]
fn ssn_detection() {
    let results = engine().detect_pii("My SSN is 123-45-6789").unwrap();
    assert_eq!(results.len(), 1);
    assert_eq!(results[0].pii_type, "ssn");
    assert_eq!(results[0].sample, "123-45-6789");
    assert_eq!(results[0].masked, "***-**-6789");
}

#[test]
fn detection_types_come_in_fixed_order() {
    let results = engine().detect_pii("Call 555-123-4567 or email john@test.com").unwrap();
    assert_eq!(results.len(), 2);
    assert_eq!(results[0].pii_type, "email");
    assert_eq!(results[0].sample, "john@test.com");
    assert_eq!(results[1].pii_type, "phone");
    assert_eq!(results[1].sample, "555-123-4567");
    assert_eq!(results[1].masked, "***-***-4567");
}

#[test]
fn matches_of_one_type_keep_text_order() {
    let results = engine().detect_pii("x@one.com then y@two.org").unwrap();
    assert_eq!(results.len(), 2);
    assert_eq!(results[0].sample, "x@one.com");
    assert_eq!(results[1].sample, "y@two.org");
}

#[test]
fn card_failing_luhn_is_penalized_but_kept() {
    let results = engine().detect_pii("card 4111111111111112").unwrap();
    let card: Vec<_> = results.iter().filter(|d| d.pii_type == "credit_card").collect();
    assert_eq!(card.len(), 1);
    assert_eq!(card[0].confidence_permille, 665);
    assert_eq!(card[0].masked, "**** **** **** 1112");
}

#[test]
fn card_passing_luhn_keeps_base_confidence() {
    let results = engine().detect_pii("card 4111111111111111").unwrap();
    let card: Vec<_> = results.iter().filter(|d| d.pii_type == "credit_card").collect();
    assert_eq!(card.len(), 1);
    assert_eq!(card[0].confidence_permille, 950);
}

#[test]
fn from_matches_scores_each_sample() {
    let config = DataCloakConfig::default();
    let samples = vec!["a@b..com".to_string(), "bob@site.io".to_string()];
    let ds = detections_from_matches(&config, PIIType::Email, &samples);
    assert_eq!(ds.len(), 2);
    assert_eq!(ds[0].confidence_permille, 665);
    assert_eq!(ds[0].masked, "a***@b..com");
    assert_eq!(ds[1].confidence_permille, 950);
    assert_eq!(ds[1].pii_type, "email");
    assert_eq!(ds[1].field_name, "text");
}

#[test]
fn from_matches_pattern_only_mode_skips_check() {
    let mut config = DataCloakConfig::default();
    config.email_validation = EmailValidation::Regex;
    config.credit_card_validation = CreditCardValidation::Basic;
    let ds = detections_from_matches(&config, PIIType::Email, &vec!["a@b..com".to_string()]);
    assert_eq!(ds[0].confidence_permille, 950);
    let ds = detections_from_matches(&config, PIIType::CreditCard, &vec!["1234567890123".to_string()]);
    assert_eq!(ds[0].confidence_permille, 950);
    assert_eq!(ds[0].pii_type, "credit_card");
}

#[test]
fn from_matches_hybrid_and_full_behave_as_checks() {
    let mut config = DataCloakConfig::default();
    config.email_validation = EmailValidation::Hybrid;
    config.credit_card_validation = CreditCardValidation::Full;
    let ds = detections_from_matches(&config, PIIType::Email, &vec!["a@bcom".to_string()]);
    assert_eq!(ds[0].confidence_permille, 665);
    let ds = detections_from_matches(&config, PIIType::CreditCard, &vec!["1234567890123".to_string()]);
    assert_eq!(ds[0].confidence_permille, 665);
}

#[test]
fn from_matches_phone_and_ssn_need_no_check() {
    let config = DataCloakConfig::default();
    let ds = detections_from_matches(&config, PIIType::Phone, &vec!["(555) 123-4567".to_string()]);
    assert_eq!(ds[0].confidence_permille, 950);
    assert_eq!(ds[0].masked, "***-***-4567");
    assert_eq!(ds[0].pii_type, "phone");
    let ds = detections_from_matches(&config, PIIType::Ssn, &vec!["12".to_string()]);
    assert_eq!(ds[0].masked, "***-**-****");
}

#[test]
fn from_matches_empty() {
    let config = DataCloakConfig::default();
    assert!(detections_from_matches(&config, PIIType::Ssn, &vec![]).is_empty());
}

#[test]
fn phone_with_parenthesised_area_code_and_space() {
    let results = engine().detect_pii("Ring (555) 123-4567 today").unwrap();
    assert_eq!(results.len(), 1);
    assert_eq!(results[0].pii_type, "phone");
    assert_eq!(results[0].sample, "(555) 123-4567");
    assert_eq!(results[0].masked, "***-***-4567");
}

#[test]
fn phone_groups_separated_by_spaces() {
    let results = engine().detect_pii("call 555 123 4567").unwrap();
    assert_eq!(results.len(), 1);
    assert_eq!(results[0].sample, "555 123 4567");
}

#[test]
fn email_top_level_domain_holds_letters_only() {
    let results = engine().detect_pii("mail x@site.c|om now").unwrap();
    assert!(results.iter().all(|d| d.pii_type != "email"));
}

#[test]
fn engine_builds_with_default_settings() {
    assert!(DataCloakEngine::new(DataCloakConfig::default()).is_ok());
}
