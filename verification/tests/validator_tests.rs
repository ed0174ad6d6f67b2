use mailcheck_lib::strutil::str_to_chars;
use mailcheck_lib::validator::analyze::analyze_spec_characters;
use mailcheck_lib::validator::domain::check_domain;
use mailcheck_lib::validator::join_spec_notes;
use mailcheck_lib::validator::local::{is_local_relaxed, is_local_strict};
use mailcheck_lib::{
    SpecClass, SpecOptions, ValidationMode, normalize_email, normalize_email_with_spec,
    validate_email, validate_email_with_spec,
};

#[test]
fn validator_accepts_basic() {
    let r = validate_email("alice@example.com", ValidationMode::Strict).unwrap();
    assert!(r.ok, "{:?}", r.reasons);
}

#[test]
fn rejects_double_at() {
    let r = validate_email("a@@b", ValidationMode::Strict).unwrap();
    assert!(!r.ok);
}

#[test]
fn mod_accepts_basic() {
    let r = validate_email("alice@example.com", ValidationMode::Strict).unwrap();
    assert!(r.ok, "{:?}", r.reasons);
}

#[test]
fn normalized_has_ascii_domain() {
    let n = normalize_email("alice@exämple.com", ValidationMode::Strict).unwrap();
    assert!(!n.ascii_domain.is_empty());
}

#[test]
fn normalized_spec_fields_populated() {
    let n = normalize_email_with_spec(
        "péché@exämple.com",
        ValidationMode::Strict,
        Some(SpecOptions::standard()),
    )
    .unwrap();
    assert_eq!(n.has_diacritics, Some(true));
    assert_eq!(n.has_confusables, Some(false));
    assert!(n.spec_notes.as_ref().expect("notes").contains("Local"));
    assert!(n
        .ascii_hint
        .as_ref()
        .expect("ascii hint")
        .eq("peche@example.com"));
}

#[test]
fn strict_profile_flags_confusable_domain() {
    let report = validate_email_with_spec(
        "user@exаmple.com",
        ValidationMode::Strict,
        Some(SpecOptions::strict()),
    )
    .unwrap();
    assert!(!report.ok);
    assert!(report.reasons.iter().any(|r| r.contains("confusable")));
    assert!(report.spec_chars.is_some());
}

#[test]
fn fr_fraud_profile_adds_tld_warning() {
    let report = validate_email_with_spec(
        "user@exаmple.fr",
        ValidationMode::Strict,
        Some(SpecOptions::fr_fraud()),
    )
    .unwrap();
    assert!(!report.ok);
    assert!(report.reasons.iter().any(|r| r.contains(".fr domain")));
}

#[test]
fn detects_local_diacritics() {
    let opts = SpecOptions::standard();
    let result = analyze_spec_characters("péché", "example.com", &opts);
    let spec = result.characters;
    assert!(spec.has_diacritics);
    assert_eq!(
        spec.normalized_ascii_hint.as_deref(),
        Some("peche@example.com")
    );
    let notes = join_spec_notes(&spec.details).unwrap();
    assert!(notes.contains("Local:"));
    assert!(notes.contains("é → e"));
}

#[test]
fn detects_domain_diacritics() {
    let opts = SpecOptions::standard();
    let result = analyze_spec_characters("user", "exämple.com", &opts);
    let spec = result.characters;
    assert!(spec.has_diacritics);
    let notes = join_spec_notes(&spec.details).unwrap();
    assert!(notes.contains("Label(exämple)"));
    assert!(notes.contains("ä → a"));
}

#[test]
fn detects_confusable_local() {
    let opts = SpecOptions::standard();
    let confusable_local = "usеr";
    let result = analyze_spec_characters(confusable_local, "example.com", &opts);
    let spec = result.characters;
    assert!(spec.has_confusables);
    assert!(spec
        .details
        .iter()
        .any(|f| matches!(f.class, SpecClass::Confusable)));
}

#[test]
fn detects_mixed_scripts_in_label() {
    let opts = SpecOptions::standard();
    let result = analyze_spec_characters("user", "exаmple.com", &opts);
    let spec = result.characters;
    assert!(spec.has_mixed_scripts);
    let notes = join_spec_notes(&spec.details).unwrap();
    assert!(notes.contains("mixed scripts"));
}

#[test]
fn punycode_domain_is_neutral() {
    let opts = SpecOptions::standard();
    let result = analyze_spec_characters("user", "xn--exmple-cua.com", &opts);
    let spec = result.characters;
    assert!(!spec.has_diacritics);
    assert!(!spec.has_confusables);
    assert!(spec.details.is_empty());
}

#[test]
fn strict_dots() {
    assert!(!is_local_strict(&str_to_chars(".abc")));
    assert!(!is_local_strict(&str_to_chars("abc.")));
    assert!(!is_local_strict(&str_to_chars("a..b")));
    assert!(is_local_strict(&str_to_chars("a.b")));
}

#[test]
fn relaxed_quoted() {
    assert!(is_local_relaxed(&str_to_chars("\"a b\"")));
}

#[test]
fn basic_domain_ok() {
    let mut reasons = vec![];
    check_domain("example.com", &mut reasons);
    assert!(reasons.is_empty(), "{:?}", reasons);
}

#[test]
fn label_too_long() {
    let long = "a".repeat(64);
    let mut reasons = vec![];
    check_domain(&format!("{}.com", long), &mut reasons);
    assert!(!reasons.is_empty());
}

#[test]
fn strict_profile_reports_confusable_and_mixed_flags() {
    let report = validate_email_with_spec(
        "user",
        ValidationMode::Strict,
        Some(SpecOptions::strict()),
    );
    assert!(report.is_ok());
    let report = validate_email_with_spec(
        "user@exаmple.com",
        ValidationMode::Strict,
        Some(SpecOptions::strict()),
    )
    .unwrap();
    let spec = report.spec_chars.expect("analysis present");
    assert!(spec.has_confusables);
    assert!(spec.has_mixed_scripts);
    assert!(report
        .reasons
        .iter()
        .any(|r| r == "domain label has confusable non-latin"));
}

#[test]
fn ascii_domain_round_trip_is_identity_modulo_case() {
    let n = normalize_email("user@Example.COM", ValidationMode::Strict).unwrap();
    assert_eq!(n.ascii_domain, "example.com");
    let n2 = normalize_email("user@mail.example.org", ValidationMode::Strict).unwrap();
    assert_eq!(n2.ascii_domain, "mail.example.org");
}

#[test]
fn ligature_decomposes_into_ascii_hint() {
    let opts = SpecOptions::standard();
    let result = analyze_spec_characters("ﬁsh", "example.com", &opts);
    assert_eq!(
        result.characters.normalized_ascii_hint.as_deref(),
        Some("fish@example.com")
    );
}

#[test]
fn combining_mark_is_dropped_from_hint() {
    let opts = SpecOptions::standard();
    let result = analyze_spec_characters("e\u{0301}x", "example.com", &opts);
    let spec = result.characters;
    assert!(spec.has_diacritics);
    assert_eq!(
        spec.normalized_ascii_hint.as_deref(),
        Some("ex@example.com")
    );
    let notes = join_spec_notes(&spec.details).unwrap();
    assert!(notes.contains("U+0301 combining mark removed"));
}

#[test]
fn empty_local_reports_length_reason() {
    let r = validate_email("@example.com", ValidationMode::Strict).unwrap();
    assert!(!r.ok);
    assert!(r
        .reasons
        .iter()
        .any(|m| m == "local part length 0 invalid (1..=64)"));
}

#[test]
fn fr_fraud_folds_typographic_quotes() {
    let opts = SpecOptions::fr_fraud();
    let result = analyze_spec_characters("a«b»c", "example.com", &opts);
    assert_eq!(
        result.characters.normalized_ascii_hint.as_deref(),
        Some("a\"b\"c@example.com")
    );
}

#[test]
fn analyzing_twice_yields_equal_results() {
    let opts = SpecOptions::standard();
    let first = analyze_spec_characters("péché", "exämple.com", &opts);
    let second = analyze_spec_characters("péché", "exämple.com", &opts);
    assert_eq!(first.characters, second.characters);
    assert_eq!(
        first.confusable_labels_for_policy,
        second.confusable_labels_for_policy
    );
    assert_eq!(first.mixed_labels_for_policy, second.mixed_labels_for_policy);
}
