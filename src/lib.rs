//! Detection and masking of personally identifiable information in free text.
//!
//! Candidate spans are found with fixed regular expressions, refined by
//! per-type validators, scored, and replaced by redacted forms that keep a
//! little distinguishing context.

pub mod chars;
pub mod engine;
pub mod mask;
pub mod pattern;
pub mod substitute;
pub mod validate;

pub use engine::{
    detections_from_matches, mask_with_detections, CreditCardValidation, DataCloakConfig,
    DataCloakEngine, DataCloakError, EmailValidation, MaskingMetadata, MaskingResult,
    PIIDetectionResult,
};
pub use mask::PIIType;
