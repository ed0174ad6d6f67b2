//! Syntactic validation and normalization of email addresses, with optional
//! Unicode character analysis.

pub mod analyze;
pub mod domain;
pub mod local;
pub mod types;

pub use analyze::{SpecComputation, analyze_spec_characters, join_spec_notes};
pub use types::{EmailError, NormalizedEmail, SpecCharacters, SpecClass, SpecFinding, SpecOptions,
    SpecSegment, ValidationMode, ValidationReport};

use vstd::prelude::*;

verus! {

use vstd::string::StringExecFns;
use vstd::utf8::encode_utf8;
use crate::strutil::{spec_trim, spec_split, spec_dec, spec_lower, trim_str, chars_to_string,
    split_chars, push_dec_u64, str_to_chars};
use analyze::{spec_analyze, spec_apply_policy, spec_note_lines, AnalysisView};
use domain::{spec_domain_reasons, check_domain, normalize_domain, idna_of};
use local::{spec_local_strict, spec_local_relaxed, is_local_strict, is_local_relaxed};
use types::{OptionsView, SpecCharactersView};

// ---------------------------------------------------------------------------
// Validation specification
// ---------------------------------------------------------------------------

pub open spec fn spec_msg_total(n: nat) -> Seq<char> {
    "total length "@ + spec_dec(n) + " > 254"@
}

pub open spec fn spec_msg_local_len(n: nat) -> Seq<char> {
    "local part length "@ + spec_dec(n) + " invalid (1..=64)"@
}

pub open spec fn spec_msg_local(mode: ValidationMode) -> Seq<char> {
    match mode {
        ValidationMode::Strict => "invalid local part (strict rules)"@,
        ValidationMode::Relaxed => "invalid local part (relaxed rules)"@,
    }
}

/// Whether the local part passes the rules of the chosen mode.
pub open spec fn spec_local_ok(mode: ValidationMode, s: Seq<char>) -> bool {
    match mode {
        ValidationMode::Strict => spec_local_strict(s),
        ValidationMode::Relaxed => spec_local_relaxed(s),
    }
}

/// Every reason `validate_email_with_spec` reports for `email`, in order:
/// the total length, the `'@'` count, the local length, the domain faults,
/// the local rules, and then the profile policy.
pub open spec fn spec_validate_reasons(
    email: Seq<char>,
    mode: ValidationMode,
    opts: Option<OptionsView>,
) -> Seq<Seq<char>> {
    let input = spec_trim(email);
    let base: Seq<Seq<char>> = if encode_utf8(input).len() > 254 {
        seq![spec_msg_total(encode_utf8(input).len())]
    } else {
        Seq::<Seq<char>>::empty()
    };
    let parts = spec_split(input, '@');
    if parts.len() != 2 {
        base.push("must contain exactly one '@'"@)
    } else {
        let local = parts[0];
        let dom = parts[1];
        let r1 = base + (if encode_utf8(local).len() == 0 || encode_utf8(local).len() > 64 {
            seq![spec_msg_local_len(encode_utf8(local).len())]
        } else {
            Seq::<Seq<char>>::empty()
        });
        let r2 = r1 + spec_domain_reasons(dom);
        let r3 = r2 + (if !spec_local_ok(mode, local) {
            seq![spec_msg_local(mode)]
        } else {
            Seq::<Seq<char>>::empty()
        });
        match opts {
            None => r3,
            Some(o) => spec_apply_policy(spec_analyze(local, dom, o), o, dom, r3),
        }
    }
}

/// The analysis a validation exposes: present only when options were given
/// and the address split into exactly a local part and a domain.
pub open spec fn spec_validate_chars(
    email: Seq<char>,
    opts: Option<OptionsView>,
) -> Option<SpecCharactersView> {
    let input = spec_trim(email);
    let parts = spec_split(input, '@');
    match opts {
        None => None,
        Some(o) => if parts.len() == 2 {
            Some(spec_analyze(parts[0], parts[1], o).characters)
        } else {
            None
        },
    }
}

/// The view of an optional analysis outcome.
pub open spec fn spec_chars_opt_view(c: Option<SpecCharacters>) -> Option<SpecCharactersView> {
    match c {
        Some(sc) => Some(sc@),
        None => None,
    }
}

/// The view of optional analysis options.
pub open spec fn spec_opts_view(o: Option<SpecOptions>) -> Option<OptionsView> {
    match o {
        Some(so) => Some(so@),
        None => None,
    }
}

// ---------------------------------------------------------------------------
// Validation
// ---------------------------------------------------------------------------

/// Validate an address under the given mode, without character analysis.
pub fn validate_email(email: &str, mode: ValidationMode) -> (r: Result<
    ValidationReport,
    EmailError,
>)
    ensures
        r matches Ok(rep) && rep.reasons.deep_view() == spec_validate_reasons(email@, mode, None)
            && rep.ok == (spec_validate_reasons(email@, mode, None).len() == 0)
            && rep.spec_chars is None,
{
    let r = validate_email_with_spec(email, mode, None);
    r
}

/// Validate an address, optionally analyzing its characters under a profile.
pub fn validate_email_with_spec(
    email: &str,
    mode: ValidationMode,
    spec_options: Option<SpecOptions>,
) -> (r: Result<ValidationReport, EmailError>)
    ensures
        r matches Ok(rep) && rep.reasons.deep_view() == spec_validate_reasons(
            email@,
            mode,
            spec_opts_view(spec_options),
        ) && rep.ok == (spec_validate_reasons(email@, mode, spec_opts_view(spec_options)).len()
            == 0) && spec_chars_opt_view(rep.spec_chars) == spec_validate_chars(
            email@,
            spec_opts_view(spec_options),
        ),
{
    let input_chars = trim_str(email);
    let input = chars_to_string(&input_chars);
    let mut reasons: Vec<String> = Vec::new();

    let total_len = input.as_str().as_bytes().len();
    if total_len > 254 {
        let mut m = String::from_str("total length ");
        push_dec_u64(&mut m, total_len as u64);
        m.append(" > 254");
        proof {
            assert(m@ =~= spec_msg_total(encode_utf8(input_chars@).len()));
        }
        reasons.push(m);
    }
    let ghost base = reasons.deep_view();
    proof {
        assert(base =~~= (if encode_utf8(spec_trim(email@)).len() > 254 {
            seq![spec_msg_total(encode_utf8(spec_trim(email@)).len())]
        } else {
            Seq::<Seq<char>>::empty()
        }));
    }

    let parts = split_chars(&input_chars, '@');
    proof {
        assert(input_chars@ == spec_trim(email@));
    }
    if parts.len() != 2 {
        reasons.push(String::from_str("must contain exactly one '@'"));
        proof {
            assert(reasons.deep_view() =~~= spec_validate_reasons(
                email@,
                mode,
                spec_opts_view(spec_options),
            ));
        }
        return Ok(ValidationReport { ok: false, reasons, spec_chars: None });
    }
    let local_str = chars_to_string(&parts[0]);
    let domain_str = chars_to_string(&parts[1]);
    proof {
        assert(parts.deep_view()[0] == local_str@);
        assert(parts.deep_view()[1] == domain_str@);
        assert(spec_split(spec_trim(email@), '@')[0] == local_str@);
        assert(spec_split(spec_trim(email@), '@')[1] == domain_str@);
    }

    let computation = match &spec_options {
        Some(o) => Some(analyze_spec_characters(local_str.as_str(), domain_str.as_str(), o)),
        None => None,
    };

    let local_len = local_str.as_str().as_bytes().len();
    if local_len == 0 || local_len > 64 {
        let mut m = String::from_str("local part length ");
        push_dec_u64(&mut m, local_len as u64);
        m.append(" invalid (1..=64)");
        proof {
            assert(m@ =~= spec_msg_local_len(encode_utf8(local_str@).len()));
        }
        reasons.push(m);
    }
    let ghost r1 = reasons.deep_view();
    proof {
        assert(r1 =~~= base + (if encode_utf8(local_str@).len() == 0 || encode_utf8(
            local_str@,
        ).len() > 64 {
            seq![spec_msg_local_len(encode_utf8(local_str@).len())]
        } else {
            Seq::<Seq<char>>::empty()
        }));
    }

    check_domain(domain_str.as_str(), &mut reasons);
    let ghost r2 = reasons.deep_view();

    let local_ok = match mode {
        ValidationMode::Strict => is_local_strict(&parts[0]),
        ValidationMode::Relaxed => is_local_relaxed(&parts[0]),
    };
    if !local_ok {
        match mode {
            ValidationMode::Strict => reasons.push(
                String::from_str("invalid local part (strict rules)"),
            ),
            ValidationMode::Relaxed => reasons.push(
                String::from_str("invalid local part (relaxed rules)"),
            ),
        }
    }
    let ghost r3 = reasons.deep_view();
    proof {
        assert(r3 =~~= r2 + (if !spec_local_ok(mode, local_str@) {
            seq![spec_msg_local(mode)]
        } else {
            Seq::<Seq<char>>::empty()
        }));
    }

    if let Some(o) = &spec_options {
        if let Some(comp) = &computation {
            comp.apply_policy(o, domain_str.as_str(), &mut reasons);
        }
    }
    proof {
        assert(reasons.deep_view() =~~= spec_validate_reasons(
            email@,
            mode,
            spec_opts_view(spec_options),
        ));
    }

    let ok = reasons.len() == 0;
    let spec_chars = match computation {
        Some(comp) => Some(comp.characters),
        None => None,
    };
    let rep = ValidationReport { ok, reasons, spec_chars };
    Ok(rep)
}


// ---------------------------------------------------------------------------
// Normalization
// ---------------------------------------------------------------------------

/// The index of the first `'@'` in `s`, if any.
pub open spec fn spec_first_at(s: Seq<char>) -> Option<int>
    decreases s.len(),
{
    if s.len() == 0 {
        None
    } else if s[0] == '@' {
        Some(0int)
    } else {
        match spec_first_at(s.drop_first()) {
            None => None,
            Some(i) => Some(i + 1),
        }
    }
}

/// The local part before the first `'@'` of the trimmed address, or empty.
pub open spec fn spec_norm_local(email: Seq<char>) -> Seq<char> {
    let input = spec_trim(email);
    match spec_first_at(input) {
        Some(i) => input.take(i),
        None => Seq::<char>::empty(),
    }
}

/// The domain after the first `'@'` of the trimmed address, or empty.
pub open spec fn spec_norm_domain(email: Seq<char>) -> Seq<char> {
    let input = spec_trim(email);
    match spec_first_at(input) {
        Some(i) => input.skip(i + 1),
        None => Seq::<char>::empty(),
    }
}

/// The analysis a normalization exposes: the one validation produced, or,
/// when validation could not split the address, a fallback analysis of what
/// the first `'@'` separates, provided either side is non-empty.
pub open spec fn spec_norm_chars(email: Seq<char>, opts: Option<OptionsView>) -> Option<
    SpecCharactersView,
> {
    match spec_validate_chars(email, opts) {
        Some(c) => Some(c),
        None => match opts {
            Some(o) => if spec_norm_local(email).len() > 0 || spec_norm_domain(email).len() > 0 {
                Some(spec_analyze(spec_norm_local(email), spec_norm_domain(email), o).characters)
            } else {
                None
            },
            None => None,
        },
    }
}

/// The view of an optional string.
pub open spec fn spec_opt_str_view(o: Option<String>) -> Option<Seq<char>> {
    match o {
        Some(s) => Some(s@),
        None => None,
    }
}

proof fn lemma_first_at_found(s: Seq<char>, k: int)
    requires
        0 <= k < s.len(),
        forall|i: int| 0 <= i < k ==> s[i] != '@',
        s[k] == '@',
    ensures
        spec_first_at(s) == Some(k),
    decreases k,
{
    if k > 0 {
        lemma_first_at_found(s.drop_first(), k - 1);
    }
}

proof fn lemma_first_at_bounds(s: Seq<char>)
    requires
        spec_first_at(s) is Some,
    ensures
        0 <= spec_first_at(s)->Some_0 < s.len(),
        s[spec_first_at(s)->Some_0] == '@',
    decreases s.len(),
{
    if s.len() > 0 && s[0] != '@' {
        lemma_first_at_bounds(s.drop_first());
    }
}

proof fn lemma_first_at_none(s: Seq<char>)
    requires
        forall|i: int| 0 <= i < s.len() ==> s[i] != '@',
    ensures
        spec_first_at(s) is None,
    decreases s.len(),
{
    if s.len() > 0 {
        lemma_first_at_none(s.drop_first());
    }
}

fn find_first_at(v: &Vec<char>) -> (r: Option<usize>)
    ensures
        match r {
            Some(i) => spec_first_at(v@) == Some(i as int),
            None => spec_first_at(v@) is None,
        },
{
    let mut i: usize = 0;
    while i < v.len()
        invariant
            i <= v@.len(),
            forall|k: int| 0 <= k < i ==> v@[k] != '@',
        decreases v@.len() - i,
    {
        if v[i] == '@' {
            proof {
                lemma_first_at_found(v@, i as int);
            }
            return Some(i);
        }
        i = i + 1;
    }
    proof {
        lemma_first_at_none(v@);
    }
    None
}

/// Copy analysis options.
pub fn clone_options(o: &SpecOptions) -> (r: SpecOptions)
    ensures
        r@ == o@,
{
    let mut warnings: Vec<(String, String)> = Vec::new();
    let mut i: usize = 0;
    proof {
        assert(warnings@.len() == 0);
    }
    while i < o.confusable_tld_warnings.len()
        invariant
            i <= o.confusable_tld_warnings@.len(),
            warnings@.len() == i,
            forall|k: int|
                0 <= k < i ==> (#[trigger] warnings@[k]).0@ == o.confusable_tld_warnings@[k].0@
                    && warnings@[k].1@ == o.confusable_tld_warnings@[k].1@,
        decreases o.confusable_tld_warnings@.len() - i,
    {
        let entry = &o.confusable_tld_warnings[i];
        warnings.push((entry.0.clone(), entry.1.clone()));
        i = i + 1;
    }
    let r = SpecOptions {
        detect_diacritics: o.detect_diacritics,
        detect_confusables: o.detect_confusables,
        detect_mixed_scripts: o.detect_mixed_scripts,
        ascii_hint: o.ascii_hint,
        allowlist_labels: crate::strutil::clone_string_vec(&o.allowlist_labels),
        domain_confusable_reason: crate::strutil::clone_opt_string(&o.domain_confusable_reason),
        domain_mixed_scripts_reason: crate::strutil::clone_opt_string(
            &o.domain_mixed_scripts_reason,
        ),
        confusable_tld_warnings: warnings,
        use_fr_hint_extensions: o.use_fr_hint_extensions,
    };
    proof {
        assert(r@.confusable_tld_warnings =~~= o@.confusable_tld_warnings);
        assert(r@ =~~= o@);
    }
    r
}

/// Validate and hand back the address in normalized form.
pub fn normalize_email(email: &str, mode: ValidationMode) -> (r: Result<
    NormalizedEmail,
    EmailError,
>)
    ensures
        r matches Ok(n) && spec_normalized_ok(n, email@, mode, None),
{
    normalize_email_with_spec(email, mode, None)
}

/// What a normalization result holds, relative to the input.
pub open spec fn spec_normalized_ok(
    n: NormalizedEmail,
    email: Seq<char>,
    mode: ValidationMode,
    ov: Option<OptionsView>,
) -> bool {
    &&& n.original@ == email
    &&& n.local@ == spec_norm_local(email)
    &&& n.domain@ == spec_lower(spec_norm_domain(email))
    &&& n.ascii_domain@ == match idna_of(spec_norm_domain(email)) {
        Some(a) => a,
        None => Seq::<char>::empty(),
    }
    &&& n.mode == mode
    &&& n.reasons.deep_view() == spec_validate_reasons(email, mode, ov)
    &&& n.valid == (spec_validate_reasons(email, mode, ov).len() == 0)
    &&& spec_chars_opt_view(n.spec_chars) == spec_norm_chars(email, ov)
    &&& match spec_norm_chars(email, ov) {
        Some(c) => {
            &&& n.has_confusables == Some(c.has_confusables)
            &&& n.has_diacritics == Some(c.has_diacritics)
            &&& n.has_mixed_scripts == Some(c.has_mixed_scripts)
            &&& (match n.spec_notes {
                Some(s) => c.details.len() > 0 && s@ == crate::strutil::spec_join(
                    spec_note_lines(c.details),
                    " | "@,
                ),
                None => c.details.len() == 0,
            })
            &&& spec_opt_str_view(n.ascii_hint) == c.normalized_ascii_hint
        },
        None => {
            &&& n.has_confusables is None
            &&& n.has_diacritics is None
            &&& n.has_mixed_scripts is None
            &&& n.spec_notes is None
            &&& n.ascii_hint is None
        },
    }
}

/// Validate, analyze when requested, and hand back the normalized form.
pub fn normalize_email_with_spec(
    email: &str,
    mode: ValidationMode,
    spec_options: Option<SpecOptions>,
) -> (r: Result<NormalizedEmail, EmailError>)
    ensures
        r matches Ok(n) && spec_normalized_ok(n, email@, mode, spec_opts_view(spec_options)),
{
    let input_chars = trim_str(email);
    let at = find_first_at(&input_chars);
    let (local_chars, domain_chars): (Vec<char>, Vec<char>) = match at {
        Some(i) => {
            let n = input_chars.len();
            proof {
                lemma_first_at_bounds(input_chars@);
                assert(i < n);
            }
            (
                crate::strutil::take_chars(&input_chars, i),
                crate::strutil::skip_chars(&input_chars, i + 1),
            )
        },
        None => (Vec::new(), Vec::new()),
    };
    proof {
        assert(local_chars@ == spec_norm_local(email@));
        assert(domain_chars@ == spec_norm_domain(email@));
    }
    let local_str = chars_to_string(&local_chars);
    let domain_str = chars_to_string(&domain_chars);

    let validated = match &spec_options {
        Some(o) => validate_email_with_spec(email, mode, Some(clone_options(o))),
        None => validate_email_with_spec(email, mode, None),
    };
    let report = match validated {
        Ok(rep) => rep,
        Err(e) => {
            proof {
                assert(false);
            }
            return Err(e);
        },
    };

    let pair = normalize_domain(domain_str.as_str());
    let ValidationReport { ok, reasons, spec_chars } = report;

    let spec_chars: Option<SpecCharacters> = match (&spec_options, spec_chars) {
        (Some(o), None) => {
            if local_chars.len() > 0 || domain_chars.len() > 0 {
                let comp = analyze_spec_characters(local_str.as_str(), domain_str.as_str(), o);
                Some(comp.characters)
            } else {
                None
            }
        },
        (_, sc) => sc,
    };

    let (hc, hd, hm, notes, hint): (
        Option<bool>,
        Option<bool>,
        Option<bool>,
        Option<String>,
        Option<String>,
    ) = match &spec_chars {
        Some(sc) => (
            Some(sc.has_confusables),
            Some(sc.has_diacritics),
            Some(sc.has_mixed_scripts),
            join_spec_notes(&sc.details),
            crate::strutil::clone_opt_string(&sc.normalized_ascii_hint),
        ),
        None => (None, None, None, None, None),
    };

    Ok(
        NormalizedEmail {
            original: String::from_str(email),
            local: local_str,
            domain: pair.0,
            ascii_domain: pair.1,
            mode,
            valid: ok,
            reasons,
            spec_chars,
            has_confusables: hc,
            has_diacritics: hd,
            has_mixed_scripts: hm,
            spec_notes: notes,
            ascii_hint: hint,
        },
    )
}


} // verus!
