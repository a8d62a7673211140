use vstd::prelude::*;

use crate::chars::{chars_of, string_from_chars};
use crate::mask::{mask_chars, mask_spec, PIIType};
use crate::pattern::{find_matches, pattern_matches, regex_compiles, CompiledPattern};
use crate::substitute::{apply_rules, replace_all, rules_view, sort_by_len, sort_rules, Rule};
use crate::validate::{email_ok, email_valid, luhn_ok, luhn_valid};

verus! {

/// How matched email addresses are checked.
#[derive(Clone, Copy, Debug, PartialEq, Eq, Structural)]
pub enum EmailValidation {
    /// The pattern match alone is enough.
    Regex,
    /// The address structure is checked.
    Validator,
    /// Behaves as `Validator`.
    Hybrid,
}

/// How matched card numbers are checked.
#[derive(Clone, Copy, Debug, PartialEq, Eq, Structural)]
pub enum CreditCardValidation {
    /// The pattern match alone is enough.
    Basic,
    /// The Luhn checksum is checked.
    Luhn,
    /// Behaves as `Luhn`.
    Full,
}

/// Settings fixed when an engine is built.
///
/// `enable_redos_protection` and `regex_timeout_ms` are advisory only: no
/// bound on matching time is enforced beyond `max_text_length`.
#[derive(Clone, Copy, Debug, PartialEq, Eq, Structural)]
pub struct DataCloakConfig {
    pub enable_redos_protection: bool,
    pub email_validation: EmailValidation,
    pub credit_card_validation: CreditCardValidation,
    pub max_text_length: usize,
    pub regex_timeout_ms: u64,
}

/// The longest text, in bytes, that the default settings accept.
pub const DEFAULT_MAX_TEXT_LENGTH: usize = 100_000;

/// The matching time budget, in milliseconds, of the default settings.
pub const DEFAULT_REGEX_TIMEOUT_MS: u64 = 1000;

impl Default for DataCloakConfig {
    fn default() -> (r: Self)
        ensures
            r == (DataCloakConfig {
                enable_redos_protection: true,
                email_validation: EmailValidation::Validator,
                credit_card_validation: CreditCardValidation::Luhn,
                max_text_length: DEFAULT_MAX_TEXT_LENGTH,
                regex_timeout_ms: DEFAULT_REGEX_TIMEOUT_MS,
            }),
    {
        DataCloakConfig {
            enable_redos_protection: true,
            email_validation: EmailValidation::Validator,
            credit_card_validation: CreditCardValidation::Luhn,
            max_text_length: DEFAULT_MAX_TEXT_LENGTH,
            regex_timeout_ms: DEFAULT_REGEX_TIMEOUT_MS,
        }
    }
}

/// Confidence of a match, in thousandths, before any penalty.
pub const BASE_CONFIDENCE: u32 = 950;

/// Confidence of a match that failed its type's check: seven tenths of the base.
pub const PENALIZED_CONFIDENCE: u32 = 665;

/// A match is kept only when its confidence, in thousandths, is above this.
pub const ACCEPT_THRESHOLD: u32 = 600;

/// One detected span of personal data.
#[derive(Clone, Debug)]
pub struct PIIDetectionResult {
    pub field_name: String,
    pub pii_type: String,
    /// Confidence in thousandths: 1000 is certainty.
    pub confidence_permille: u32,
    pub sample: String,
    pub masked: String,
}

/// The mathematical content of a detection.
pub struct DetectionView {
    pub field_name: Seq<char>,
    pub pii_type: Seq<char>,
    pub confidence_permille: int,
    pub sample: Seq<char>,
    pub masked: Seq<char>,
}

impl View for PIIDetectionResult {
    type V = DetectionView;

    open spec fn view(&self) -> DetectionView {
        DetectionView {
            field_name: self.field_name@,
            pii_type: self.pii_type@,
            confidence_permille: self.confidence_permille as int,
            sample: self.sample@,
            masked: self.masked@,
        }
    }
}

/// Counts that describe one masking call.
#[derive(Clone, Copy, Debug, PartialEq, Eq, Structural)]
pub struct MaskingMetadata {
    /// Wall-clock time of the call, in milliseconds.
    pub processing_time: u64,
    pub fields_processed: u32,
    pub pii_items_found: u32,
}

/// The outcome of masking a text.
#[derive(Debug)]
pub struct MaskingResult {
    pub original_text: String,
    pub masked_text: String,
    pub detected_pii: Vec<PIIDetectionResult>,
    pub metadata: MaskingMetadata,
}

/// Why an engine could not be built or a call could not be served.
#[derive(Debug)]
pub enum DataCloakError {
    /// The pattern for `pii_type` did not compile.
    PatternCompilation { pii_type: PIIType, error: regex::Error },
    /// The text is `actual` bytes long, more than the `max` allowed.
    InputTooLarge { actual: usize, max: usize },
}

/// The name under which a type is reported.
pub open spec fn kind_label(kind: PIIType) -> Seq<char> {
    match kind {
        PIIType::Email => seq!['e', 'm', 'a', 'i', 'l'],
        PIIType::Phone => seq!['p', 'h', 'o', 'n', 'e'],
        PIIType::Ssn => seq!['s', 's', 'n'],
        PIIType::CreditCard => seq!['c', 'r', 'e', 'd', 'i', 't', '_', 'c', 'a', 'r', 'd'],
    }
}

/// The field every detection is reported under: the text is a single field.
pub open spec fn text_field() -> Seq<char> {
    seq!['t', 'e', 'x', 't']
}

/// A match of type `kind` passes the check that `cfg` selects for it.
pub open spec fn passes_check(cfg: DataCloakConfig, kind: PIIType, sample: Seq<char>) -> bool {
    match kind {
        PIIType::Email => match cfg.email_validation {
            EmailValidation::Regex => true,
            _ => email_valid(sample),
        },
        PIIType::CreditCard => match cfg.credit_card_validation {
            CreditCardValidation::Basic => true,
            _ => luhn_valid(sample),
        },
        _ => true,
    }
}

/// The confidence of a match, in thousandths.
pub open spec fn confidence_of(cfg: DataCloakConfig, kind: PIIType, sample: Seq<char>) -> int {
    if passes_check(cfg, kind, sample) {
        BASE_CONFIDENCE as int
    } else {
        PENALIZED_CONFIDENCE as int
    }
}

/// The detection made of one match.
pub open spec fn detection_of(cfg: DataCloakConfig, kind: PIIType, sample: Seq<char>) -> DetectionView {
    DetectionView {
        field_name: text_field(),
        pii_type: kind_label(kind),
        confidence_permille: confidence_of(cfg, kind, sample),
        sample,
        masked: mask_spec(kind, sample),
    }
}

/// The detections made of the matches of one type, in order, keeping those
/// whose confidence is above the threshold.
pub open spec fn detections_spec(
    cfg: DataCloakConfig,
    kind: PIIType,
    samples: Seq<Seq<char>>,
) -> Seq<DetectionView>
    decreases samples.len(),
{
    if samples.len() == 0 {
        Seq::empty()
    } else {
        let prev = detections_spec(cfg, kind, samples.drop_last());
        let d = detection_of(cfg, kind, samples.last());
        if d.confidence_permille > ACCEPT_THRESHOLD as int {
            prev.push(d)
        } else {
            prev
        }
    }
}

/// The views of a slice of detections.
pub open spec fn detections_view(v: Seq<PIIDetectionResult>) -> Seq<DetectionView> {
    v.map_values(|d: PIIDetectionResult| d@)
}

/// The replacement rules of a list of detections: each sample by its mask.
pub open spec fn rules_of(ds: Seq<DetectionView>) -> Seq<Rule> {
    ds.map_values(|d: DetectionView| (d.sample, d.masked))
}

/// `text` with each detection's sample replaced by its mask, longest sample first.
pub open spec fn masked_spec(text: Seq<char>, ds: Seq<DetectionView>) -> Seq<char> {
    apply_rules(text, sort_by_len(rules_of(ds)))
}

fn kind_label_string(kind: PIIType) -> (r: String)
    ensures
        r@ == kind_label(kind),
{
    let r = match kind {
        PIIType::Email => string_from_chars(&['e', 'm', 'a', 'i', 'l']),
        PIIType::Phone => string_from_chars(&['p', 'h', 'o', 'n', 'e']),
        PIIType::Ssn => string_from_chars(&['s', 's', 'n']),
        PIIType::CreditCard => string_from_chars(&['c', 'r', 'e', 'd', 'i', 't', '_', 'c', 'a', 'r', 'd']),
    };
    r
}

/// A local part, `@`, and a domain with a dot and a final label of two or
/// more letters.
pub const EMAIL_PATTERN: &'static str = r"\b[A-Za-z0-9._%+-]+@[A-Za-z0-9.-]+\.[A-Za-z]{2,}\b";

/// Ten digits, optionally grouped as `(nnn) nnn-nnnn` or `nnn-nnn-nnnn`.
pub const PHONE_PATTERN: &'static str = r"(?:\(?\d{3}\)?[-.\s]?\d{3}[-.\s]?\d{4}|\b\d{3}[-.\s]?\d{3}[-.\s]?\d{4})\b";

/// `nnn-nn-nnnn`.
pub const SSN_PATTERN: &'static str = r"\b\d{3}-\d{2}-\d{4}\b";

/// A run of 13 to 19 digits, optionally separated by spaces or hyphens.
pub const CREDIT_CARD_PATTERN: &'static str = r"\b(?:\d[ -]*?){13,19}\b";

/// The pattern that finds values of a type.
pub open spec fn pattern_source(kind: PIIType) -> Seq<char> {
    match kind {
        PIIType::Email => EMAIL_PATTERN@,
        PIIType::Phone => PHONE_PATTERN@,
        PIIType::Ssn => SSN_PATTERN@,
        PIIType::CreditCard => CREDIT_CARD_PATTERN@,
    }
}

/// The detections of one type in `text`.
pub open spec fn detect_kind_spec(cfg: DataCloakConfig, kind: PIIType, text: Seq<char>) -> Seq<
    DetectionView,
> {
    detections_spec(cfg, kind, pattern_matches(pattern_source(kind), text))
}

/// The detections in `text`: emails, phone numbers, social security numbers
/// and card numbers, in that order, each type in text order.
pub open spec fn detect_spec(cfg: DataCloakConfig, text: Seq<char>) -> Seq<DetectionView> {
    detect_kind_spec(cfg, PIIType::Email, text) + detect_kind_spec(cfg, PIIType::Phone, text)
        + detect_kind_spec(cfg, PIIType::Ssn, text) + detect_kind_spec(
        cfg,
        PIIType::CreditCard,
        text,
    )
}

/// The views of the texts of a list of matches.
pub open spec fn samples_view(v: Seq<String>) -> Seq<Seq<char>> {
    v.map_values(|s: String| s@)
}

/// Turns the matches of type `kind` into detections: each is checked,
/// scored, masked, and kept when its score is above the threshold.
pub fn detections_from_matches(config: &DataCloakConfig, kind: PIIType, samples: &Vec<String>) -> (r:
    Vec<PIIDetectionResult>)
    ensures
        detections_view(r@) == detections_spec(*config, kind, samples_view(samples@)),
{
    let ghost ms = samples_view(samples@);
    let mut out: Vec<PIIDetectionResult> = Vec::new();
    let mut i: usize = 0;
    while i < samples.len()
        invariant
            i <= samples@.len(),
            ms == samples_view(samples@),
            detections_view(out@) == detections_spec(*config, kind, ms.subrange(0, i as int)),
        decreases samples@.len() - i,
    {
        let sample = &samples[i];
        let cs = chars_of(sample.as_str());
        let valid = match kind {
            PIIType::Email => match config.email_validation {
                EmailValidation::Regex => true,
                _ => email_ok(cs.as_slice()),
            },
            PIIType::CreditCard => match config.credit_card_validation {
                CreditCardValidation::Basic => true,
                _ => luhn_ok(cs.as_slice()),
            },
            _ => true,
        };
        let confidence: u32 = if valid {
            BASE_CONFIDENCE
        } else {
            PENALIZED_CONFIDENCE
        };
        proof {
            assert(ms.subrange(0, i + 1).drop_last() =~= ms.subrange(0, i as int));
            assert(ms.subrange(0, i + 1).last() == sample@);
        }
        if confidence > ACCEPT_THRESHOLD {
            let masked = mask_chars(kind, cs.as_slice());
            let d = PIIDetectionResult {
                field_name: string_from_chars(&['t', 'e', 'x', 't']),
                pii_type: kind_label_string(kind),
                confidence_permille: confidence,
                sample: sample.clone(),
                masked: string_from_chars(masked.as_slice()),
            };
            let ghost before = out@;
            out.push(d);
            assert(detections_view(out@) =~= detections_view(before).push(d@));
        }
        i = i + 1;
    }
    assert(ms.subrange(0, samples@.len() as int) =~= ms);
    out
}

/// The engine: the compiled patterns and the settings they are used with.
pub struct DataCloakEngine {
    email: CompiledPattern,
    phone: CompiledPattern,
    ssn: CompiledPattern,
    credit_card: CompiledPattern,
    config: DataCloakConfig,
}

impl DataCloakEngine {
    /// Each pattern was compiled from its type's source.
    #[verifier::type_invariant]
    spec fn patterns_compiled(&self) -> bool {
        &&& self.email@ == pattern_source(PIIType::Email)
        &&& self.phone@ == pattern_source(PIIType::Phone)
        &&& self.ssn@ == pattern_source(PIIType::Ssn)
        &&& self.credit_card@ == pattern_source(PIIType::CreditCard)
    }

    /// The settings the engine was built with.
    pub closed spec fn settings(&self) -> DataCloakConfig {
        self.config
    }

    /// Builds an engine with the given settings, compiling every pattern.
    pub fn new(config: DataCloakConfig) -> (r: Result<Self, DataCloakError>)
        ensures
            r is Ok <==> (regex_compiles(pattern_source(PIIType::Email)) && regex_compiles(
                pattern_source(PIIType::Phone),
            ) && regex_compiles(pattern_source(PIIType::Ssn)) && regex_compiles(
                pattern_source(PIIType::CreditCard),
            )),
            r matches Ok(e) ==> e.settings() == config,
            r matches Err(e) ==> e is PatternCompilation,
    {
        let email = match CompiledPattern::new(EMAIL_PATTERN) {
            Ok(p) => p,
            Err(error) => return Err(DataCloakError::PatternCompilation { pii_type: PIIType::Email, error }),
        };
        let phone = match CompiledPattern::new(PHONE_PATTERN) {
            Ok(p) => p,
            Err(error) => return Err(DataCloakError::PatternCompilation { pii_type: PIIType::Phone, error }),
        };
        let ssn = match CompiledPattern::new(SSN_PATTERN) {
            Ok(p) => p,
            Err(error) => return Err(DataCloakError::PatternCompilation { pii_type: PIIType::Ssn, error }),
        };
        let credit_card = match CompiledPattern::new(CREDIT_CARD_PATTERN) {
            Ok(p) => p,
            Err(error) => return Err(
                DataCloakError::PatternCompilation { pii_type: PIIType::CreditCard, error },
            ),
        };
        Ok(DataCloakEngine { email, phone, ssn, credit_card, config })
    }

    fn pattern_for(&self, kind: PIIType) -> (r: &CompiledPattern)
        ensures
            r@ == pattern_source(kind),
    {
        proof {
            use_type_invariant(self);
        }
        match kind {
            PIIType::Email => &self.email,
            PIIType::Phone => &self.phone,
            PIIType::Ssn => &self.ssn,
            PIIType::CreditCard => &self.credit_card,
        }
    }

    fn detect_kind(&self, kind: PIIType, text: &str, results: &mut Vec<PIIDetectionResult>)
        ensures
            detections_view(final(results)@) == detections_view(old(results)@) + detect_kind_spec(
                self.settings(),
                kind,
                text@,
            ),
    {
        let samples = find_matches(self.pattern_for(kind), text);
        let mut found = detections_from_matches(&self.config, kind, &samples);
        let ghost before = results@;
        let ghost part = found@;
        results.append(&mut found);
        assert(detections_view(results@) =~= detections_view(before) + detections_view(part));
    }

    /// Finds the personal data in `text`.
    ///
    /// Fails with `InputTooLarge` exactly when the text is longer, in bytes,
    /// than the configured maximum; no pattern is run then.
    pub fn detect_pii(&self, text: &str) -> (r: Result<Vec<PIIDetectionResult>, DataCloakError>)
        ensures
            match r {
                Ok(v) => text.len() <= self.settings().max_text_length && detections_view(v@)
                    == detect_spec(self.settings(), text@),
                Err(e) => text.len() > self.settings().max_text_length && e == (
                DataCloakError::InputTooLarge {
                    actual: text.len(),
                    max: self.settings().max_text_length,
                }),
            },
    {
        if text.len() > self.config.max_text_length {
            return Err(
                DataCloakError::InputTooLarge { actual: text.len(), max: self.config.max_text_length },
            );
        }
        let mut results: Vec<PIIDetectionResult> = Vec::new();
        self.detect_kind(PIIType::Email, text, &mut results);
        self.detect_kind(PIIType::Phone, text, &mut results);
        self.detect_kind(PIIType::Ssn, text, &mut results);
        self.detect_kind(PIIType::CreditCard, text, &mut results);
        assert(detections_view(results@) =~= detect_spec(self.settings(), text@));
        Ok(results)
    }

    /// Replaces the personal data in `text` by its masked forms, longest
    /// sample first.
    ///
    /// Fails with `InputTooLarge` exactly when `detect_pii` does.
    pub fn mask_text(&self, text: &str) -> (r: Result<MaskingResult, DataCloakError>)
        ensures
            match r {
                Ok(m) => {
                    &&& text.len() <= self.settings().max_text_length
                    &&& m.original_text@ == text@
                    &&& detections_view(m.detected_pii@) == detect_spec(self.settings(), text@)
                    &&& m.masked_text@ == masked_spec(text@, detect_spec(self.settings(), text@))
                    &&& m.metadata.fields_processed == 1
                    &&& m.metadata.pii_items_found == m.detected_pii@.len() as u32
                },
                Err(e) => text.len() > self.settings().max_text_length && e == (
                DataCloakError::InputTooLarge {
                    actual: text.len(),
                    max: self.settings().max_text_length,
                }),
            },
    {
        let start = std::time::Instant::now();
        let detected = match self.detect_pii(text) {
            Ok(v) => v,
            Err(e) => return Err(e),
        };
        let masked_text = mask_with_detections(text, detected.as_slice());
        let processing_time = start.elapsed().as_millis() as u64;
        let pii_items_found = detected.len() as u32;
        Ok(MaskingResult {
            original_text: text.to_owned(),
            masked_text,
            detected_pii: detected,
            metadata: MaskingMetadata { processing_time, fields_processed: 1, pii_items_found },
        })
    }

    /// Checks the structure of an email address: exactly one `@`, and a
    /// domain with a dot and never two dots in a row.
    pub fn validate_email(&self, email: &str) -> (r: bool)
        ensures
            r == email_valid(email@),
    {
        let cs = chars_of(email);
        email_ok(cs.as_slice())
    }

    /// Checks the Luhn checksum of the digits of `card_number`, which must
    /// number from 13 to 19.
    pub fn validate_luhn(&self, card_number: &str) -> (r: bool)
        ensures
            r == luhn_valid(card_number@),
    {
        let cs = chars_of(card_number);
        luhn_ok(cs.as_slice())
    }

    /// The masked form of `value` as a value of type `pii_type`.
    pub fn mask_value(&self, value: &str, pii_type: PIIType) -> (r: String)
        ensures
            r@ == mask_spec(pii_type, value@),
    {
        let cs = chars_of(value);
        let m = mask_chars(pii_type, cs.as_slice());
        string_from_chars(m.as_slice())
    }
}

/// Replaces, in `text`, every occurrence of each detection's sample by its
/// mask, the longest samples first and samples of equal length in the order
/// given.
pub fn mask_with_detections(text: &str, detections: &[PIIDetectionResult]) -> (r: String)
    ensures
        r@ == masked_spec(text@, detections_view(detections@)),
{
    let ghost all = rules_of(detections_view(detections@));
    let mut rules: Vec<(Vec<char>, Vec<char>)> = Vec::new();
    let mut i: usize = 0;
    while i < detections.len()
        invariant
            i <= detections@.len(),
            all == rules_of(detections_view(detections@)),
            rules_view(rules@) == all.subrange(0, i as int),
        decreases detections@.len() - i,
    {
        let d = &detections[i];
        let rule = (chars_of(d.sample.as_str()), chars_of(d.masked.as_str()));
        let ghost before = rules@;
        rules.push(rule);
        proof {
            assert(detections_view(detections@)[i as int] == d@);
            assert(all[i as int] == (d@.sample, d@.masked));
            assert(rules_view(rules@) =~= rules_view(before).push(all[i as int]));
            assert(all.subrange(0, i + 1) =~= all.subrange(0, i as int).push(all[i as int]));
        }
        i = i + 1;
    }
    assert(all.subrange(0, detections@.len() as int) =~= all);
    let sorted = sort_rules(rules);
    let ghost order = rules_view(sorted@);
    let mut current = chars_of(text);
    let mut j: usize = 0;
    assert(order.subrange(0, 0) =~= Seq::<Rule>::empty());
    while j < sorted.len()
        invariant
            j <= sorted@.len(),
            order == rules_view(sorted@),
            current@ == apply_rules(text@, order.subrange(0, j as int)),
        decreases sorted@.len() - j,
    {
        let rule = &sorted[j];
        current = replace_all(current.as_slice(), rule.0.as_slice(), rule.1.as_slice());
        assert(order.subrange(0, j + 1).drop_last() =~= order.subrange(0, j as int));
        j = j + 1;
    }
    assert(order.subrange(0, sorted@.len() as int) =~= order);
    string_from_chars(current.as_slice())
}

#[verifier::external_type_specification]
#[verifier::external_body]
pub struct ExInstant(std::time::Instant);

/// The current instant of a monotonic clock.
pub assume_specification[ std::time::Instant::now ]() -> std::time::Instant;

/// The time passed since an instant.
pub assume_specification[ std::time::Instant::elapsed ](i: &std::time::Instant) -> core::time::Duration;

/// A duration in whole milliseconds.
pub assume_specification[ core::time::Duration::as_millis ](d: &core::time::Duration) -> u128;

} // verus!
