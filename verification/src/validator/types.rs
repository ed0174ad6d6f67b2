//! Data model of the validator: reports, findings and analysis options.

use vstd::prelude::*;

verus! {

/// How strictly the local part is validated.
#[derive(Debug, Clone, Copy, PartialEq, Eq, Structural)]
pub enum ValidationMode {
    Strict,
    Relaxed,
}

/// Where a finding was made.
#[derive(Debug, Clone, PartialEq, Eq)]
pub enum SpecSegment {
    Local,
    Domain,
    Label(String),
}

/// The view of a segment, with label text as a character sequence.
#[verifier::ext_equal]
pub enum SegmentView {
    Local,
    Domain,
    Label(Seq<char>),
}

impl View for SpecSegment {
    type V = SegmentView;

    open spec fn view(&self) -> SegmentView {
        match self {
            SpecSegment::Local => SegmentView::Local,
            SpecSegment::Domain => SegmentView::Domain,
            SpecSegment::Label(s) => SegmentView::Label(s@),
        }
    }
}

/// The kind of a finding.
#[derive(Debug, Clone, Copy, PartialEq, Eq, Structural)]
pub enum SpecClass {
    Diacritic,
    Confusable,
    MixedScript,
}

/// One suspicious character, where it was seen and a human-readable note.
#[derive(Debug, Clone, PartialEq, Eq)]
pub struct SpecFinding {
    pub segment: SpecSegment,
    pub codepoint: char,
    pub class: SpecClass,
    pub note: String,
}

/// The view of a finding.
#[verifier::ext_equal]
pub struct FindingView {
    pub segment: SegmentView,
    pub codepoint: char,
    pub class: SpecClass,
    pub note: Seq<char>,
}

impl View for SpecFinding {
    type V = FindingView;

    open spec fn view(&self) -> FindingView {
        FindingView {
            segment: self.segment@,
            codepoint: self.codepoint,
            class: self.class,
            note: self.note@,
        }
    }
}

impl DeepView for SpecFinding {
    type V = FindingView;

    open spec fn deep_view(&self) -> FindingView {
        self@
    }
}

/// The outcome of the character analysis: one flag per finding class, the
/// findings themselves, and the reconstructed ASCII hint when requested.
#[derive(Debug, Clone, PartialEq, Eq)]
pub struct SpecCharacters {
    pub has_confusables: bool,
    pub has_diacritics: bool,
    pub has_mixed_scripts: bool,
    pub details: Vec<SpecFinding>,
    pub normalized_ascii_hint: Option<String>,
}

/// The view of the analysis outcome.
#[verifier::ext_equal]
pub struct SpecCharactersView {
    pub has_confusables: bool,
    pub has_diacritics: bool,
    pub has_mixed_scripts: bool,
    pub details: Seq<FindingView>,
    pub normalized_ascii_hint: Option<Seq<char>>,
}

impl View for SpecCharacters {
    type V = SpecCharactersView;

    open spec fn view(&self) -> SpecCharactersView {
        SpecCharactersView {
            has_confusables: self.has_confusables,
            has_diacritics: self.has_diacritics,
            has_mixed_scripts: self.has_mixed_scripts,
            details: self.details.deep_view(),
            normalized_ascii_hint: match self.normalized_ascii_hint {
                Some(ref h) => Some(h@),
                None => None,
            },
        }
    }
}

/// Each flag of the analysis holds iff a finding of that class exists.
pub open spec fn spec_flags_consistent(s: SpecCharactersView) -> bool {
    &&& s.has_confusables == exists|i: int|
        0 <= i < s.details.len() && s.details[i].class == SpecClass::Confusable
    &&& s.has_diacritics == exists|i: int|
        0 <= i < s.details.len() && s.details[i].class == SpecClass::Diacritic
    &&& s.has_mixed_scripts == exists|i: int|
        0 <= i < s.details.len() && s.details[i].class == SpecClass::MixedScript
}

/// The report of one validation: overall verdict, the reasons an address was
/// found invalid, and the character analysis when it was requested.
#[derive(Debug, Clone, PartialEq, Eq)]
pub struct ValidationReport {
    pub ok: bool,
    pub reasons: Vec<String>,
    pub spec_chars: Option<SpecCharacters>,
}

/// A validated address in normalized form, with the analysis summary fields.
#[derive(Debug, Clone, PartialEq, Eq)]
pub struct NormalizedEmail {
    pub original: String,
    pub local: String,
    pub domain: String,
    pub ascii_domain: String,
    pub mode: ValidationMode,
    pub valid: bool,
    pub reasons: Vec<String>,
    pub spec_chars: Option<SpecCharacters>,
    pub has_confusables: Option<bool>,
    pub has_diacritics: Option<bool>,
    pub has_mixed_scripts: Option<bool>,
    pub spec_notes: Option<String>,
    pub ascii_hint: Option<String>,
}

/// Profile options for the character analysis.
#[derive(Debug, Clone)]
pub struct SpecOptions {
    pub detect_diacritics: bool,
    pub detect_confusables: bool,
    pub detect_mixed_scripts: bool,
    pub ascii_hint: bool,
    pub allowlist_labels: Vec<String>,
    pub domain_confusable_reason: Option<String>,
    pub domain_mixed_scripts_reason: Option<String>,
    pub confusable_tld_warnings: Vec<(String, String)>,
    pub use_fr_hint_extensions: bool,
}

/// The view of the options.
#[verifier::ext_equal]
pub struct OptionsView {
    pub detect_diacritics: bool,
    pub detect_confusables: bool,
    pub detect_mixed_scripts: bool,
    pub ascii_hint: bool,
    pub allowlist_labels: Seq<Seq<char>>,
    pub domain_confusable_reason: Option<Seq<char>>,
    pub domain_mixed_scripts_reason: Option<Seq<char>>,
    pub confusable_tld_warnings: Seq<(Seq<char>, Seq<char>)>,
    pub use_fr_hint_extensions: bool,
}

impl View for SpecOptions {
    type V = OptionsView;

    open spec fn view(&self) -> OptionsView {
        OptionsView {
            detect_diacritics: self.detect_diacritics,
            detect_confusables: self.detect_confusables,
            detect_mixed_scripts: self.detect_mixed_scripts,
            ascii_hint: self.ascii_hint,
            allowlist_labels: self.allowlist_labels.deep_view(),
            domain_confusable_reason: match self.domain_confusable_reason {
                Some(ref r) => Some(r@),
                None => None,
            },
            domain_mixed_scripts_reason: match self.domain_mixed_scripts_reason {
                Some(ref r) => Some(r@),
                None => None,
            },
            confusable_tld_warnings: Seq::new(
                self.confusable_tld_warnings@.len(),
                |i: int|
                    (
                        self.confusable_tld_warnings@[i].0@,
                        self.confusable_tld_warnings@[i].1@,
                    ),
            ),
            use_fr_hint_extensions: self.use_fr_hint_extensions,
        }
    }
}

impl SpecOptions {
    /// The standard profile: every detector on, no policy effects.
    pub fn standard() -> (r: SpecOptions)
        ensures
            r@ == spec_standard_options(),
    {
        let r = SpecOptions {
            detect_diacritics: true,
            detect_confusables: true,
            detect_mixed_scripts: true,
            ascii_hint: true,
            allowlist_labels: Vec::new(),
            domain_confusable_reason: None,
            domain_mixed_scripts_reason: None,
            confusable_tld_warnings: Vec::new(),
            use_fr_hint_extensions: false,
        };
        proof {
            assert(r@.allowlist_labels =~= spec_standard_options().allowlist_labels);
            assert(r@.confusable_tld_warnings =~= spec_standard_options().confusable_tld_warnings);
            assert(r@ =~= spec_standard_options());
        }
        r
    }

    /// The strict profile: confusable domain labels invalidate the address.
    pub fn strict() -> (r: SpecOptions)
        ensures
            r@ == spec_strict_options(),
    {
        let mut opts = SpecOptions::standard();
        opts.domain_confusable_reason = Some(
            String::from_str("domain label has confusable non-latin"),
        );
        proof {
            assert(opts@ =~= spec_strict_options());
        }
        opts
    }

    /// The fr-fraud profile: strict, with typographic folding and warnings for
    /// confusables under .fr and .gouv.fr.
    pub fn fr_fraud() -> (r: SpecOptions)
        ensures
            r@ == spec_fr_fraud_options(),
    {
        let mut opts = SpecOptions::standard();
        opts.use_fr_hint_extensions = true;
        opts.domain_confusable_reason = Some(
            String::from_str("fr-fraud profile: domain label has confusable non-latin characters"),
        );
        opts.domain_mixed_scripts_reason = Some(
            String::from_str("fr-fraud profile: domain uses mixed Unicode scripts"),
        );
        let mut warnings: Vec<(String, String)> = Vec::new();
        warnings.push(
            (
                String::from_str("fr"),
                String::from_str("fr-fraud profile: .fr domain with confusable characters detected"),
            ),
        );
        warnings.push(
            (
                String::from_str("gouv.fr"),
                String::from_str(
                    "fr-fraud profile: .gouv.fr domain with confusable characters detected",
                ),
            ),
        );
        opts.confusable_tld_warnings = warnings;
        proof {
            assert(opts@.confusable_tld_warnings =~= spec_fr_fraud_options().confusable_tld_warnings);
            assert(opts@ =~= spec_fr_fraud_options());
        }
        opts
    }
}

/// The standard profile's options.
pub open spec fn spec_standard_options() -> OptionsView {
    OptionsView {
        detect_diacritics: true,
        detect_confusables: true,
        detect_mixed_scripts: true,
        ascii_hint: true,
        allowlist_labels: Seq::empty(),
        domain_confusable_reason: None,
        domain_mixed_scripts_reason: None,
        confusable_tld_warnings: Seq::empty(),
        use_fr_hint_extensions: false,
    }
}

/// The strict profile's options.
pub open spec fn spec_strict_options() -> OptionsView {
    OptionsView {
        domain_confusable_reason: Some("domain label has confusable non-latin"@),
        ..spec_standard_options()
    }
}

/// The fr-fraud profile's options.
pub open spec fn spec_fr_fraud_options() -> OptionsView {
    OptionsView {
        use_fr_hint_extensions: true,
        domain_confusable_reason: Some(
            "fr-fraud profile: domain label has confusable non-latin characters"@,
        ),
        domain_mixed_scripts_reason: Some("fr-fraud profile: domain uses mixed Unicode scripts"@),
        confusable_tld_warnings: seq![
            ("fr"@, "fr-fraud profile: .fr domain with confusable characters detected"@),
            (
                "gouv.fr"@,
                "fr-fraud profile: .gouv.fr domain with confusable characters detected"@,
            ),
        ],
        ..spec_standard_options()
    }
}

/// Errors of the validator interface. Validation reports failures through
/// `ValidationReport::reasons`; this type is the interface's error channel.
#[derive(Debug, Clone, PartialEq, Eq)]
pub enum EmailError {
    InvalidFormat,
    TooLong,
    Other(String),
}

impl EmailError {
    /// A human-readable description of the error.
    pub fn message(&self) -> (r: String)
        ensures
            self is InvalidFormat ==> r@ == "invalid format"@,
            self is TooLong ==> r@ == "too long"@,
            self matches EmailError::Other(m) ==> r@ == m@,
    {
        match self {
            EmailError::InvalidFormat => String::from_str("invalid format"),
            EmailError::TooLong => String::from_str("too long"),
            EmailError::Other(m) => m.clone(),
        }
    }
}

} // verus!
