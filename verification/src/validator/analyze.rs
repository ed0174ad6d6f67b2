//! The character analyzer: scans the local part and each domain label for
//! confusables, diacritics and mixed scripts, reconstructs an ASCII hint, and
//! applies profile policy to the validation reasons.

use vstd::prelude::*;

verus! {

use vstd::string::StringExecFns;
use crate::spec_is_ascii_char;
use crate::strutil::{spec_lower, spec_split, spec_hex4, spec_dec, spec_ends_with, lower_string,
    lower_chars, split_chars, str_to_chars, chars_to_string, push_chars, push_hex4_u32, str_eq,
    contains_string, ends_with_chars, spec_join, join_strings};
use crate::tables::{ConfusableScript, spec_script_abbrev, spec_diacritic, spec_confusable,
    spec_typographic, spec_repl_seq, diacritic_replacement, confusable_replacement,
    typographic_replacement};
use crate::unicode::{is_combining_of, nfkd_of, major_script_of, spec_nfkd_ascii,
    is_combining_mark_char, major_script_code, nfkd_ascii};
use super::types::{SpecSegment, SegmentView, SpecClass, SpecFinding, FindingView, SpecCharacters,
    SpecCharactersView, SpecOptions, OptionsView};

// ---------------------------------------------------------------------------
// Per-character specification
// ---------------------------------------------------------------------------

/// The ASCII contribution of `c` to the hint: the confusable replacement,
/// else the diacritic replacement, else (in the fr profile) the typographic
/// replacement, else nothing for ASCII (the character itself is kept), else
/// the ASCII projection of its decomposition, which may be empty. Combining
/// marks contribute nothing at all.
pub open spec fn spec_hint_for_char(c: char, fr: bool) -> Option<Seq<char>> {
    if is_combining_of(c) {
        Some(Seq::<char>::empty())
    } else {
        match spec_confusable(c) {
            Some(conf) => Some(seq![conf.0]),
            None => match spec_diacritic(c) {
                Some(repl) => Some(spec_repl_seq(repl)),
                None => match spec_typographic(c) {
                    Some(t) if fr => Some(seq![t]),
                    _ => {
                        if spec_is_ascii_char(c) {
                            None
                        } else {
                            Some(spec_nfkd_ascii(c))
                        }
                    },
                },
            },
        }
    }
}

/// What scanning `c` appends to the hint buffer: its replacement, or itself.
pub open spec fn spec_hint_char_out(c: char, fr: bool) -> Seq<char> {
    match spec_hint_for_char(c, fr) {
        Some(h) => h,
        None => seq![c],
    }
}

/// The note of a confusable finding for `c`.
pub open spec fn spec_confusable_note(c: char) -> Seq<char> {
    match spec_confusable(c) {
        Some(conf) => seq![c] + "("@ + spec_script_abbrev(conf.1) + ") → "@ + seq![conf.0]
            + "(lat)"@,
        None => Seq::<char>::empty(),
    }
}

/// The note of a diacritic finding for `c`.
pub open spec fn spec_diacritic_note(c: char) -> Seq<char> {
    match spec_diacritic(c) {
        Some(repl) => seq![c] + " → "@ + spec_repl_seq(repl) + " (diacritic)"@,
        None => Seq::<char>::empty(),
    }
}

/// The note of a combining-mark finding for `c`.
pub open spec fn spec_combining_note(c: char) -> Seq<char> {
    "U+"@ + spec_hex4((c as u32) as nat) + " combining mark removed"@
}

/// The note of a mixed-script finding in `seg`.
pub open spec fn spec_mixed_note(seg: SegmentView) -> Seq<char> {
    match seg {
        SegmentView::Local => "mixed scripts in local"@,
        SegmentView::Domain => "mixed scripts in domain"@,
        SegmentView::Label(l) => "mixed scripts in label '"@ + l + "'"@,
    }
}

/// The confusable and diacritic findings that scanning `c` emits, in order.
pub open spec fn spec_char_findings(seg: SegmentView, c: char, o: OptionsView) -> Seq<FindingView> {
    (if o.detect_confusables && spec_confusable(c) is Some {
        seq![
            FindingView {
                segment: seg,
                codepoint: c,
                class: SpecClass::Confusable,
                note: spec_confusable_note(c),
            },
        ]
    } else {
        Seq::<FindingView>::empty()
    }) + (if o.detect_diacritics && spec_diacritic(c) is Some {
        seq![
            FindingView {
                segment: seg,
                codepoint: c,
                class: SpecClass::Diacritic,
                note: spec_diacritic_note(c),
            },
        ]
    } else if o.detect_diacritics && spec_diacritic(c) is None && is_combining_of(c) {
        seq![
            FindingView {
                segment: seg,
                codepoint: c,
                class: SpecClass::Diacritic,
                note: spec_combining_note(c),
            },
        ]
    } else {
        Seq::<FindingView>::empty()
    })
}

// ---------------------------------------------------------------------------
// Segment scan specification
// ---------------------------------------------------------------------------

/// The cumulative state of scanning one segment.
#[verifier::ext_equal]
pub struct SegScan {
    pub findings: Seq<FindingView>,
    pub hint: Seq<char>,
    pub primary: Option<u32>,
    pub reported: bool,
    pub confusable: bool,
}

/// Whether scanning `c` emits the segment's one mixed-script finding.
pub open spec fn spec_mixed_emit(pre: SegScan, c: char, o: OptionsView) -> bool {
    o.detect_mixed_scripts && major_script_of(c) is Some && pre.primary is Some && major_script_of(
        c,
    ) != pre.primary && !pre.reported
}

/// The mixed-script finding that scanning `c` emits, if it emits one.
pub open spec fn spec_mixed_part(pre: SegScan, c: char, seg: SegmentView, o: OptionsView) -> Seq<
    FindingView,
> {
    if spec_mixed_emit(pre, c, o) {
        seq![
            FindingView {
                segment: seg,
                codepoint: c,
                class: SpecClass::MixedScript,
                note: spec_mixed_note(seg),
            },
        ]
    } else {
        Seq::<FindingView>::empty()
    }
}

/// Scan a whole segment, character by character.
pub open spec fn spec_scan(seg: SegmentView, text: Seq<char>, o: OptionsView) -> SegScan
    decreases text.len(),
{
    if text.len() == 0 {
        SegScan {
            findings: Seq::<FindingView>::empty(),
            hint: Seq::<char>::empty(),
            primary: None,
            reported: false,
            confusable: false,
        }
    } else {
        let pre = spec_scan(seg, text.drop_last(), o);
        let c = text.last();
        SegScan {
            findings: pre.findings + spec_char_findings(seg, c, o) + spec_mixed_part(pre, c, seg, o),
            hint: pre.hint + spec_hint_char_out(c, o.use_fr_hint_extensions),
            primary: if o.detect_mixed_scripts && pre.primary is None && major_script_of(c)
                is Some {
                major_script_of(c)
            } else {
                pre.primary
            },
            reported: pre.reported || spec_mixed_emit(pre, c, o),
            confusable: pre.confusable || (o.detect_confusables && spec_confusable(c) is Some),
        }
    }
}

// ---------------------------------------------------------------------------
// Whole-analysis specification
// ---------------------------------------------------------------------------

/// The dot-separated labels the analyzer visits: none for an empty domain.
pub open spec fn spec_domain_labels(domain: Seq<char>) -> Seq<Seq<char>> {
    if domain.len() == 0 {
        Seq::<Seq<char>>::empty()
    } else {
        spec_split(domain, '.')
    }
}

/// The findings of all domain labels, in label order.
pub open spec fn spec_domain_findings(labels: Seq<Seq<char>>, o: OptionsView) -> Seq<FindingView>
    decreases labels.len(),
{
    if labels.len() == 0 {
        Seq::<FindingView>::empty()
    } else {
        spec_domain_findings(labels.drop_last(), o) + spec_scan(
            SegmentView::Label(labels.last()),
            labels.last(),
            o,
        ).findings
    }
}

/// The raw domain hint: each label's hint, separated by dots; a dot is
/// written only when something has been written already.
pub open spec fn spec_domain_hint(labels: Seq<Seq<char>>, o: OptionsView) -> Seq<char>
    decreases labels.len(),
{
    if labels.len() == 0 {
        Seq::<char>::empty()
    } else {
        let pre = spec_domain_hint(labels.drop_last(), o);
        pre + (if pre.len() > 0 {
            seq!['.']
        } else {
            Seq::<char>::empty()
        }) + spec_scan(SegmentView::Label(labels.last()), labels.last(), o).hint
    }
}

/// Whether `lab` (already lowercased) is allowlisted.
pub open spec fn spec_in_allowlist(o: OptionsView, lab: Seq<char>) -> bool {
    exists|i: int|
        0 <= i < o.allowlist_labels.len() && spec_lower(#[trigger] o.allowlist_labels[i]) == lab
}

/// The lowercased labels with confusables that drive policy, deduplicated,
/// allowlisted labels excluded.
pub open spec fn spec_conf_labels(labels: Seq<Seq<char>>, o: OptionsView) -> Seq<Seq<char>>
    decreases labels.len(),
{
    if labels.len() == 0 {
        Seq::<Seq<char>>::empty()
    } else {
        let pre = spec_conf_labels(labels.drop_last(), o);
        let lab = spec_lower(labels.last());
        if spec_scan(SegmentView::Label(labels.last()), labels.last(), o).confusable
            && !spec_in_allowlist(o, lab) && !pre.contains(lab) {
            pre.push(lab)
        } else {
            pre
        }
    }
}

/// The lowercased labels with mixed scripts that drive policy.
pub open spec fn spec_mixed_labels(labels: Seq<Seq<char>>, o: OptionsView) -> Seq<Seq<char>>
    decreases labels.len(),
{
    if labels.len() == 0 {
        Seq::<Seq<char>>::empty()
    } else {
        let pre = spec_mixed_labels(labels.drop_last(), o);
        let lab = spec_lower(labels.last());
        if spec_scan(SegmentView::Label(labels.last()), labels.last(), o).reported
            && !spec_in_allowlist(o, lab) && !pre.contains(lab) {
            pre.push(lab)
        } else {
            pre
        }
    }
}

/// Every finding of the analysis, local part first, then the labels.
pub open spec fn spec_all_findings(local: Seq<char>, domain: Seq<char>, o: OptionsView) -> Seq<
    FindingView,
> {
    spec_scan(SegmentView::Local, local, o).findings + spec_domain_findings(
        spec_domain_labels(domain),
        o,
    )
}

/// The exposed ASCII hint: `local@domain` when the domain contributed text,
/// the local hint alone for an empty domain, nothing otherwise.
pub open spec fn spec_full_hint(local: Seq<char>, domain: Seq<char>, o: OptionsView) -> Option<
    Seq<char>,
> {
    if !o.ascii_hint {
        None
    } else {
        let lh = spec_scan(SegmentView::Local, local, o).hint;
        let dh = spec_lower(spec_domain_hint(spec_domain_labels(domain), o));
        if dh.len() > 0 {
            Some(lh + seq!['@'] + dh)
        } else if domain.len() == 0 {
            Some(lh)
        } else {
            None
        }
    }
}

pub open spec fn spec_has_class(fs: Seq<FindingView>, cl: SpecClass) -> bool {
    exists|i: int| 0 <= i < fs.len() && fs[i].class == cl
}

/// The view of a whole analysis.
#[verifier::ext_equal]
pub struct AnalysisView {
    pub characters: SpecCharactersView,
    pub confusable_labels: Seq<Seq<char>>,
    pub mixed_labels: Seq<Seq<char>>,
}

/// The analysis of `(local, domain)` under options `o`.
pub open spec fn spec_analyze(local: Seq<char>, domain: Seq<char>, o: OptionsView) -> AnalysisView {
    let findings = spec_all_findings(local, domain, o);
    let labels = spec_domain_labels(domain);
    AnalysisView {
        characters: SpecCharactersView {
            has_confusables: spec_has_class(findings, SpecClass::Confusable),
            has_diacritics: spec_has_class(findings, SpecClass::Diacritic),
            has_mixed_scripts: spec_has_class(findings, SpecClass::MixedScript),
            details: findings,
            normalized_ascii_hint: spec_full_hint(local, domain, o),
        },
        confusable_labels: spec_conf_labels(labels, o),
        mixed_labels: spec_mixed_labels(labels, o),
    }
}

/// The flags of an analysis hold iff a finding of the class exists; this is
/// how `spec_analyze` defines them.
pub proof fn lemma_analyze_flags_consistent(local: Seq<char>, domain: Seq<char>, o: OptionsView)
    ensures
        super::types::spec_flags_consistent(spec_analyze(local, domain, o).characters),
{
}

/// Analyzing the same inputs twice yields the same analysis: the outcome is a
/// function of the local part, the domain and the options alone.
pub proof fn lemma_analyze_idempotent(
    a: AnalysisView,
    b: AnalysisView,
    local: Seq<char>,
    domain: Seq<char>,
    o: OptionsView,
)
    requires
        a == spec_analyze(local, domain, o),
        b == spec_analyze(local, domain, o),
    ensures
        a == b,
{
}

proof fn lemma_has_class_append(a: Seq<FindingView>, b: Seq<FindingView>, cl: SpecClass)
    ensures
        spec_has_class(a + b, cl) == (spec_has_class(a, cl) || spec_has_class(b, cl)),
{
    if spec_has_class(a + b, cl) {
        let i = choose|i: int| 0 <= i < (a + b).len() && (a + b)[i].class == cl;
        if i < a.len() {
            assert(a[i].class == cl);
        } else {
            assert(b[i - a.len()].class == cl);
        }
    }
    if spec_has_class(a, cl) {
        let i = choose|i: int| 0 <= i < a.len() && a[i].class == cl;
        assert((a + b)[i].class == cl);
    }
    if spec_has_class(b, cl) {
        let i = choose|i: int| 0 <= i < b.len() && b[i].class == cl;
        assert((a + b)[a.len() + i].class == cl);
    }
}


// ---------------------------------------------------------------------------
// Executable builders
// ---------------------------------------------------------------------------

/// Copy a segment tag.
pub fn clone_segment(seg: &SpecSegment) -> (r: SpecSegment)
    ensures
        r@ == seg@,
{
    match seg {
        SpecSegment::Local => SpecSegment::Local,
        SpecSegment::Domain => SpecSegment::Domain,
        SpecSegment::Label(s) => SpecSegment::Label(s.clone()),
    }
}

fn build_confusable_note(c: char, repl: char, tag: ConfusableScript) -> (r: String)
    requires
        spec_confusable(c) == Some((repl, tag)),
    ensures
        r@ == spec_confusable_note(c),
{
    let mut m = String::new();
    m.push(c);
    m.append("(");
    match tag {
        ConfusableScript::Cyrillic => m.append("cyr"),
        ConfusableScript::Greek => m.append("gre"),
    }
    m.append(") → ");
    m.push(repl);
    m.append("(lat)");
    proof {
        reveal_strlit("cyr");
        reveal_strlit("gre");
        assert(m@ =~= spec_confusable_note(c));
    }
    m
}

fn build_diacritic_note(c: char, repl: (char, Option<char>)) -> (r: String)
    requires
        spec_diacritic(c) == Some(repl),
    ensures
        r@ == spec_diacritic_note(c),
{
    let mut m = String::new();
    m.push(c);
    m.append(" → ");
    m.push(repl.0);
    if let Some(second) = repl.1 {
        m.push(second);
    }
    m.append(" (diacritic)");
    proof {
        assert(m@ =~= spec_diacritic_note(c));
    }
    m
}

fn build_combining_note(c: char) -> (r: String)
    ensures
        r@ == spec_combining_note(c),
{
    let mut m = String::from_str("U+");
    push_hex4_u32(&mut m, c as u32);
    m.append(" combining mark removed");
    proof {
        assert(m@ =~= spec_combining_note(c));
    }
    m
}

fn build_mixed_note(seg: &SpecSegment) -> (r: String)
    ensures
        r@ == spec_mixed_note(seg@),
{
    match seg {
        SpecSegment::Local => String::from_str("mixed scripts in local"),
        SpecSegment::Domain => String::from_str("mixed scripts in domain"),
        SpecSegment::Label(l) => {
            let mut m = String::from_str("mixed scripts in label '");
            m.append(l.as_str());
            m.append("'");
            proof {
                assert(m@ =~= spec_mixed_note(seg@));
            }
            m
        },
    }
}

/// The ASCII contribution of one character, as the hint spec defines it.
fn hint_for_char(c: char, fr: bool) -> (r: Option<Vec<char>>)
    ensures
        match r {
            Some(v) => spec_hint_for_char(c, fr) == Some(v@),
            None => spec_hint_for_char(c, fr) is None,
        },
{
    if is_combining_mark_char(c) {
        let v: Vec<char> = Vec::new();
        proof {
            assert(v@ =~= Seq::<char>::empty());
        }
        return Some(v);
    }
    if let Some(conf) = confusable_replacement(c) {
        let mut v: Vec<char> = Vec::new();
        v.push(conf.0);
        proof {
            assert(v@ =~= seq![conf.0]);
        }
        return Some(v);
    }
    if let Some(repl) = diacritic_replacement(c) {
        let mut v: Vec<char> = Vec::new();
        v.push(repl.0);
        if let Some(second) = repl.1 {
            v.push(second);
        }
        proof {
            assert(v@ =~= spec_repl_seq(repl));
        }
        return Some(v);
    }
    if fr {
        if let Some(t) = typographic_replacement(c) {
            let mut v: Vec<char> = Vec::new();
            v.push(t);
            proof {
                assert(v@ =~= seq![t]);
            }
            return Some(v);
        }
    }
    if (c as u32) < 128 {
        return None;
    }
    let d = nfkd_ascii(c);
    Some(d)
}

// ---------------------------------------------------------------------------
// Finding-class bookkeeping
// ---------------------------------------------------------------------------

proof fn lemma_has_class_singleton(f: FindingView, cl: SpecClass)
    ensures
        spec_has_class(seq![f], cl) == (f.class == cl),
{
    if f.class == cl {
        assert(seq![f][0].class == cl);
    }
}


// ---------------------------------------------------------------------------
// Segment processing
// ---------------------------------------------------------------------------

proof fn lemma_char_findings_classes(seg: SegmentView, c: char, o: OptionsView)
    ensures
        spec_has_class(spec_char_findings(seg, c, o), SpecClass::Confusable) == (
        o.detect_confusables && spec_confusable(c) is Some),
        spec_has_class(spec_char_findings(seg, c, o), SpecClass::Diacritic) == (o.detect_diacritics
            && (spec_diacritic(c) is Some || is_combining_of(c))),
        !spec_has_class(spec_char_findings(seg, c, o), SpecClass::MixedScript),
{
    let fs = spec_char_findings(seg, c, o);
    if o.detect_confusables && spec_confusable(c) is Some {
        assert(fs[0].class == SpecClass::Confusable);
    }
    if o.detect_diacritics && (spec_diacritic(c) is Some || is_combining_of(c)) {
        assert(fs[fs.len() - 1].class == SpecClass::Diacritic);
    }
    assert forall|i: int| 0 <= i < fs.len() implies fs[i].class != SpecClass::MixedScript by {}
    if spec_has_class(fs, SpecClass::Confusable) {
        let i = choose|i: int| 0 <= i < fs.len() && fs[i].class == SpecClass::Confusable;
        assert(o.detect_confusables && spec_confusable(c) is Some);
    }
    if spec_has_class(fs, SpecClass::Diacritic) {
        let i = choose|i: int| 0 <= i < fs.len() && fs[i].class == SpecClass::Diacritic;
        assert(o.detect_diacritics && (spec_diacritic(c) is Some || is_combining_of(c)));
    }
}

/// Scan one character: write its hint contribution, emit its findings, and
/// advance the mixed-script state. Returns whether it was a confusable.
fn scan_char(
    segment: &SpecSegment,
    c: char,
    options: &SpecOptions,
    buf: &mut String,
    characters: &mut SpecCharacters,
    primary: &mut Option<u32>,
    reported: &mut bool,
) -> (r: bool)
    ensures
        ({
            let o = options@;
            let emit = o.detect_mixed_scripts && major_script_of(c) is Some && (*old(primary))
                is Some && major_script_of(c) != *old(primary) && !(*old(reported));
            let mixedpart = if emit {
                Seq::<FindingView>::empty().push(
                    FindingView {
                        segment: segment@,
                        codepoint: c,
                        class: SpecClass::MixedScript,
                        note: spec_mixed_note(segment@),
                    },
                )
            } else {
                Seq::<FindingView>::empty()
            };
            &&& final(characters)@.details == old(characters)@.details + spec_char_findings(
                segment@,
                c,
                o,
            ) + mixedpart
            &&& final(characters)@.has_confusables == (old(characters)@.has_confusables || (
            o.detect_confusables && spec_confusable(c) is Some))
            &&& final(characters)@.has_diacritics == (old(characters)@.has_diacritics || (
            o.detect_diacritics && (spec_diacritic(c) is Some || is_combining_of(c))))
            &&& final(characters)@.has_mixed_scripts == (old(characters)@.has_mixed_scripts
                || emit)
            &&& final(characters)@.normalized_ascii_hint == old(
                characters,
            )@.normalized_ascii_hint
            &&& final(buf)@ == old(buf)@ + spec_hint_char_out(c, o.use_fr_hint_extensions)
            &&& *final(primary) == (if o.detect_mixed_scripts && (*old(primary)) is None
                && major_script_of(c) is Some {
                major_script_of(c)
            } else {
                *old(primary)
            })
            &&& *final(reported) == (*old(reported) || emit)
            &&& r == (o.detect_confusables && spec_confusable(c) is Some)
        }),
{
    let ghost det0 = characters@.details;
    let ghost buf0 = buf@;

    // ASCII hint contribution
    let h = hint_for_char(c, options.use_fr_hint_extensions);
    match h {
        Some(hs) => push_chars(buf, &hs),
        None => buf.push(c),
    }
    proof {
        assert(buf@ =~= buf0 + spec_hint_char_out(c, options@.use_fr_hint_extensions));
    }

    // Confusable finding
    let mut is_conf: bool = false;
    if options.detect_confusables {
        if let Some(cr) = confusable_replacement(c) {
            let note = build_confusable_note(c, cr.0, cr.1);
            characters.has_confusables = true;
            is_conf = true;
            let seg = clone_segment(segment);
            characters.details.push(
                SpecFinding { segment: seg, codepoint: c, class: SpecClass::Confusable, note },
            );
            proof {
                assert(characters@.details =~~= det0.push(
                    FindingView {
                        segment: segment@,
                        codepoint: c,
                        class: SpecClass::Confusable,
                        note: spec_confusable_note(c),
                    },
                ));
            }
        }
    }
    let ghost det1 = characters@.details;
    proof {
        assert(det1 =~~= det0 + (if options@.detect_confusables && spec_confusable(c) is Some {
            seq![
                FindingView {
                    segment: segment@,
                    codepoint: c,
                    class: SpecClass::Confusable,
                    note: spec_confusable_note(c),
                },
            ]
        } else {
            Seq::<FindingView>::empty()
        }));
    }

    // Diacritic or combining-mark finding
    if options.detect_diacritics {
        if let Some(repl) = diacritic_replacement(c) {
            let note = build_diacritic_note(c, repl);
            characters.has_diacritics = true;
            let seg = clone_segment(segment);
            characters.details.push(
                SpecFinding { segment: seg, codepoint: c, class: SpecClass::Diacritic, note },
            );
            proof {
                assert(characters@.details =~~= det1.push(
                    FindingView {
                        segment: segment@,
                        codepoint: c,
                        class: SpecClass::Diacritic,
                        note: spec_diacritic_note(c),
                    },
                ));
            }
        } else if is_combining_mark_char(c) {
            let note = build_combining_note(c);
            characters.has_diacritics = true;
            let seg = clone_segment(segment);
            characters.details.push(
                SpecFinding { segment: seg, codepoint: c, class: SpecClass::Diacritic, note },
            );
            proof {
                assert(characters@.details =~~= det1.push(
                    FindingView {
                        segment: segment@,
                        codepoint: c,
                        class: SpecClass::Diacritic,
                        note: spec_combining_note(c),
                    },
                ));
            }
        }
    }
    let ghost det2 = characters@.details;
    proof {
        assert(det2 =~~= det0 + spec_char_findings(segment@, c, options@));
    }

    // Mixed-script finding: at most one per segment
    let mut emitted: bool = false;
    if options.detect_mixed_scripts {
        if let Some(sc) = major_script_code(c) {
            let cur: Option<u32> = *primary;
            match cur {
                Some(p) => {
                    if sc != p && !(*reported) {
                        let note = build_mixed_note(segment);
                        characters.has_mixed_scripts = true;
                        *reported = true;
                        emitted = true;
                        let seg = clone_segment(segment);
                        characters.details.push(
                            SpecFinding {
                                segment: seg,
                                codepoint: c,
                                class: SpecClass::MixedScript,
                                note,
                            },
                        );
                        proof {
                            assert(characters@.details =~~= det2.push(
                                FindingView {
                                    segment: segment@,
                                    codepoint: c,
                                    class: SpecClass::MixedScript,
                                    note: spec_mixed_note(segment@),
                                },
                            ));
                        }
                    }
                },
                None => {
                    *primary = Some(sc);
                },
            }
        }
    }
    proof {
        if emitted {
            assert(characters@.details =~~= det0 + spec_char_findings(segment@, c, options@)
                + seq![
                FindingView {
                    segment: segment@,
                    codepoint: c,
                    class: SpecClass::MixedScript,
                    note: spec_mixed_note(segment@),
                },
            ]);
        } else {
            assert(characters@.details =~~= det0 + spec_char_findings(segment@, c, options@)
                + Seq::<FindingView>::empty());
        }
    }
    is_conf
}


/// One unfolding step of `spec_scan`.
proof fn lemma_scan_step(seg: SegmentView, text: Seq<char>, i: int, o: OptionsView)
    requires
        0 < i <= text.len(),
    ensures
        spec_scan(seg, text.take(i), o).findings == spec_scan(seg, text.take(i - 1), o).findings
            + spec_char_findings(seg, text[i - 1], o) + spec_mixed_part(
            spec_scan(seg, text.take(i - 1), o),
            text[i - 1],
            seg,
            o,
        ),
        spec_scan(seg, text.take(i), o).hint == spec_scan(seg, text.take(i - 1), o).hint
            + spec_hint_char_out(text[i - 1], o.use_fr_hint_extensions),
        spec_scan(seg, text.take(i), o).primary == (if o.detect_mixed_scripts && spec_scan(
            seg,
            text.take(i - 1),
            o,
        ).primary is None && major_script_of(text[i - 1]) is Some {
            major_script_of(text[i - 1])
        } else {
            spec_scan(seg, text.take(i - 1), o).primary
        }),
        spec_scan(seg, text.take(i), o).reported == (spec_scan(seg, text.take(i - 1), o).reported
            || spec_mixed_emit(spec_scan(seg, text.take(i - 1), o), text[i - 1], o)),
        spec_scan(seg, text.take(i), o).confusable == (spec_scan(
            seg,
            text.take(i - 1),
            o,
        ).confusable || (o.detect_confusables && spec_confusable(text[i - 1]) is Some)),
{
    assert(text.take(i).len() == i);
    assert(text.take(i).drop_last() =~= text.take(i - 1));
    assert(text.take(i).last() == text[i - 1]);
}


/// The classes present in the mixed-script part.
proof fn lemma_mixed_part_classes(pre: SegScan, c: char, seg: SegmentView, o: OptionsView)
    ensures
        spec_has_class(spec_mixed_part(pre, c, seg, o), SpecClass::MixedScript) == spec_mixed_emit(
            pre,
            c,
            o,
        ),
        !spec_has_class(spec_mixed_part(pre, c, seg, o), SpecClass::Confusable),
        !spec_has_class(spec_mixed_part(pre, c, seg, o), SpecClass::Diacritic),
{
    let mixedpart = spec_mixed_part(pre, c, seg, o);
    if spec_mixed_emit(pre, c, o) {
        assert(mixedpart.len() == 1);
        assert(mixedpart[0].class == SpecClass::MixedScript);
        assert(spec_has_class(mixedpart, SpecClass::MixedScript));
        assert(!spec_has_class(mixedpart, SpecClass::Confusable)) by {
            if spec_has_class(mixedpart, SpecClass::Confusable) {
                let k = choose|k: int|
                    0 <= k < mixedpart.len() && mixedpart[k].class == SpecClass::Confusable;
                assert(k == 0);
            }
        }
        assert(!spec_has_class(mixedpart, SpecClass::Diacritic)) by {
            if spec_has_class(mixedpart, SpecClass::Diacritic) {
                let k = choose|k: int|
                    0 <= k < mixedpart.len() && mixedpart[k].class == SpecClass::Diacritic;
                assert(k == 0);
            }
        }
    }
}

/// The finding classes present after one scan step.
proof fn lemma_scan_step_classes(seg: SegmentView, text: Seq<char>, i: int, o: OptionsView)
    requires
        0 < i <= text.len(),
    ensures
        spec_has_class(spec_scan(seg, text.take(i), o).findings, SpecClass::Confusable) == (
        spec_has_class(spec_scan(seg, text.take(i - 1), o).findings, SpecClass::Confusable) || (
        o.detect_confusables && spec_confusable(text[i - 1]) is Some)),
        spec_has_class(spec_scan(seg, text.take(i), o).findings, SpecClass::Diacritic) == (
        spec_has_class(spec_scan(seg, text.take(i - 1), o).findings, SpecClass::Diacritic) || (
        o.detect_diacritics && (spec_diacritic(text[i - 1]) is Some || is_combining_of(
            text[i - 1],
        )))),
        spec_has_class(spec_scan(seg, text.take(i), o).findings, SpecClass::MixedScript) == (
        spec_has_class(spec_scan(seg, text.take(i - 1), o).findings, SpecClass::MixedScript)
            || spec_mixed_emit(spec_scan(seg, text.take(i - 1), o), text[i - 1], o)),
{
    lemma_scan_step(seg, text, i, o);
    let pre = spec_scan(seg, text.take(i - 1), o);
    let c = text[i - 1];
    let mixedpart = spec_mixed_part(pre, c, seg, o);
    lemma_char_findings_classes(seg, c, o);
    lemma_has_class_append(pre.findings, spec_char_findings(seg, c, o), SpecClass::Confusable);
    lemma_has_class_append(pre.findings + spec_char_findings(seg, c, o), mixedpart,
        SpecClass::Confusable);
    lemma_has_class_append(pre.findings, spec_char_findings(seg, c, o), SpecClass::Diacritic);
    lemma_has_class_append(pre.findings + spec_char_findings(seg, c, o), mixedpart,
        SpecClass::Diacritic);
    lemma_has_class_append(pre.findings, spec_char_findings(seg, c, o), SpecClass::MixedScript);
    lemma_has_class_append(pre.findings + spec_char_findings(seg, c, o), mixedpart,
        SpecClass::MixedScript);
    lemma_mixed_part_classes(pre, c, seg, o);
}

/// Scan one segment: append its findings and flags to `characters`, its
/// ASCII contribution to `buf`, and report whether the segment held a
/// confusable and whether it mixed scripts.
#[verifier::rlimit(100)]
pub fn process_segment(
    segment: &SpecSegment,
    text: &Vec<char>,
    options: &SpecOptions,
    buf: &mut String,
    characters: &mut SpecCharacters,
) -> (r: (bool, bool))
    ensures
        final(characters)@.details == old(characters)@.details + spec_scan(
            segment@,
            text@,
            options@,
        ).findings,
        final(characters)@.has_confusables == (old(characters)@.has_confusables || spec_has_class(
            spec_scan(segment@, text@, options@).findings,
            SpecClass::Confusable,
        )),
        final(characters)@.has_diacritics == (old(characters)@.has_diacritics || spec_has_class(
            spec_scan(segment@, text@, options@).findings,
            SpecClass::Diacritic,
        )),
        final(characters)@.has_mixed_scripts == (old(characters)@.has_mixed_scripts
            || spec_has_class(
            spec_scan(segment@, text@, options@).findings,
            SpecClass::MixedScript,
        )),
        final(characters)@.normalized_ascii_hint == old(characters)@.normalized_ascii_hint,
        final(buf)@ == old(buf)@ + spec_scan(segment@, text@, options@).hint,
        r.0 == spec_scan(segment@, text@, options@).confusable,
        r.1 == spec_scan(segment@, text@, options@).reported,
{
    let mut primary: Option<u32> = None;
    let mut reported: bool = false;
    let mut conf: bool = false;
    let mut i: usize = 0;
    proof {
        assert(text@.take(0) =~= Seq::<char>::empty());
        assert(characters@.details =~~= old(characters)@.details + spec_scan(
            segment@,
            text@.take(0),
            options@,
        ).findings);
        assert(buf@ =~= old(buf)@ + spec_scan(segment@, text@.take(0), options@).hint);
    }
    while i < text.len()
        invariant
            i <= text@.len(),
            characters@.details == old(characters)@.details + spec_scan(
                segment@,
                text@.take(i as int),
                options@,
            ).findings,
            characters@.has_confusables == (old(characters)@.has_confusables || spec_has_class(
                spec_scan(segment@, text@.take(i as int), options@).findings,
                SpecClass::Confusable,
            )),
            characters@.has_diacritics == (old(characters)@.has_diacritics || spec_has_class(
                spec_scan(segment@, text@.take(i as int), options@).findings,
                SpecClass::Diacritic,
            )),
            characters@.has_mixed_scripts == (old(characters)@.has_mixed_scripts
                || spec_has_class(
                spec_scan(segment@, text@.take(i as int), options@).findings,
                SpecClass::MixedScript,
            )),
            characters@.normalized_ascii_hint == old(characters)@.normalized_ascii_hint,
            buf@ == old(buf)@ + spec_scan(segment@, text@.take(i as int), options@).hint,
            primary == spec_scan(segment@, text@.take(i as int), options@).primary,
            reported == spec_scan(segment@, text@.take(i as int), options@).reported,
            conf == spec_scan(segment@, text@.take(i as int), options@).confusable,
        decreases text@.len() - i,
    {
        let ghost pre = spec_scan(segment@, text@.take(i as int), options@);
        let c = text[i];
        let was_conf = scan_char(segment, c, options, buf, characters, &mut primary, &mut reported);
        if was_conf {
            conf = true;
        }
        i = i + 1;
        proof {
            lemma_scan_step(segment@, text@, i as int, options@);
            lemma_scan_step_classes(segment@, text@, i as int, options@);
            let scan = spec_scan(segment@, text@.take(i as int), options@);
            assert(characters@.details =~~= old(characters)@.details + scan.findings);
            assert(buf@ =~= old(buf)@ + scan.hint);
        }
    }
    proof {
        assert(text@.take(text@.len() as int) =~= text@);
    }
    (conf, reported)
}


// ---------------------------------------------------------------------------
// Whole-address analysis
// ---------------------------------------------------------------------------

/// The outcome of one analysis: the findings and hint, plus the lowercased
/// domain labels that drive policy.
pub struct SpecComputation {
    pub characters: SpecCharacters,
    pub confusable_labels_for_policy: Vec<String>,
    pub mixed_labels_for_policy: Vec<String>,
}

impl View for SpecComputation {
    type V = AnalysisView;

    open spec fn view(&self) -> AnalysisView {
        AnalysisView {
            characters: self.characters@,
            confusable_labels: self.confusable_labels_for_policy.deep_view(),
            mixed_labels: self.mixed_labels_for_policy.deep_view(),
        }
    }
}

/// One step of the per-label recursions.
proof fn lemma_label_step(labels: Seq<Seq<char>>, j: int, o: OptionsView)
    requires
        0 < j <= labels.len(),
    ensures
        spec_domain_findings(labels.take(j), o) == spec_domain_findings(labels.take(j - 1), o)
            + spec_scan(SegmentView::Label(labels[j - 1]), labels[j - 1], o).findings,
        spec_domain_hint(labels.take(j), o) == spec_domain_hint(labels.take(j - 1), o) + (if
        spec_domain_hint(labels.take(j - 1), o).len() > 0 {
            seq!['.']
        } else {
            Seq::<char>::empty()
        }) + spec_scan(SegmentView::Label(labels[j - 1]), labels[j - 1], o).hint,
        spec_conf_labels(labels.take(j), o) == (if spec_scan(
            SegmentView::Label(labels[j - 1]),
            labels[j - 1],
            o,
        ).confusable && !spec_in_allowlist(o, spec_lower(labels[j - 1])) && !spec_conf_labels(
            labels.take(j - 1),
            o,
        ).contains(spec_lower(labels[j - 1])) {
            spec_conf_labels(labels.take(j - 1), o).push(spec_lower(labels[j - 1]))
        } else {
            spec_conf_labels(labels.take(j - 1), o)
        }),
        spec_mixed_labels(labels.take(j), o) == (if spec_scan(
            SegmentView::Label(labels[j - 1]),
            labels[j - 1],
            o,
        ).reported && !spec_in_allowlist(o, spec_lower(labels[j - 1])) && !spec_mixed_labels(
            labels.take(j - 1),
            o,
        ).contains(spec_lower(labels[j - 1])) {
            spec_mixed_labels(labels.take(j - 1), o).push(spec_lower(labels[j - 1]))
        } else {
            spec_mixed_labels(labels.take(j - 1), o)
        }),
{
    assert(labels.take(j).len() == j);
    assert(labels.take(j).drop_last() =~= labels.take(j - 1));
    assert(labels.take(j).last() == labels[j - 1]);
}

/// Whether `lab` (already lowercased) is among the allowlisted labels.
fn in_allowlist(options: &SpecOptions, lab: &str) -> (r: bool)
    ensures
        r == spec_in_allowlist(options@, lab@),
{
    let mut i: usize = 0;
    while i < options.allowlist_labels.len()
        invariant
            i <= options.allowlist_labels@.len(),
            forall|k: int|
                0 <= k < i ==> spec_lower(#[trigger] options@.allowlist_labels[k]) != lab@,
        decreases options.allowlist_labels@.len() - i,
    {
        let lowered = lower_string(options.allowlist_labels[i].as_str());
        if str_eq(lowered.as_str(), lab) {
            proof {
                assert(spec_lower(options@.allowlist_labels[i as int]) == lab@);
            }
            return true;
        }
        i = i + 1;
    }
    false
}

/// Analyze the local part and each domain label.
pub fn analyze_spec_characters(local: &str, domain: &str, options: &SpecOptions) -> (r:
    SpecComputation)
    ensures
        r@ == spec_analyze(local@, domain@, options@),
{
    let lchars = str_to_chars(local);
    let dchars = str_to_chars(domain);
    let mut characters = SpecCharacters {
        has_confusables: false,
        has_diacritics: false,
        has_mixed_scripts: false,
        details: Vec::new(),
        normalized_ascii_hint: None,
    };
    let mut local_buf = String::new();
    let seg_local = SpecSegment::Local;
    proof {
        assert(characters@.details =~~= Seq::<FindingView>::empty());
    }
    // local-part findings are diagnostic only: the per-segment flags drive no policy
    let _ = process_segment(&seg_local, &lchars, options, &mut local_buf, &mut characters);
    let ghost scan_l = spec_scan(SegmentView::Local, local@, options@);
    proof {
        assert(characters@.details =~~= scan_l.findings);
        assert(local_buf@ =~= scan_l.hint);
    }
    let mut dom_buf = String::new();
    let mut conf_labels: Vec<String> = Vec::new();
    let mut mixed_labels: Vec<String> = Vec::new();
    let ghost glabels = spec_domain_labels(domain@);
    if dchars.len() > 0 {
        let labels = split_chars(&dchars, '.');
        proof {
            assert(labels.deep_view() == glabels);
            assert(labels.deep_view().take(0) =~= Seq::<Seq<char>>::empty());
            assert(characters@.details =~~= scan_l.findings + spec_domain_findings(
                glabels.take(0),
                options@,
            ));
            assert(dom_buf@ =~= spec_domain_hint(glabels.take(0), options@));
            assert(conf_labels.deep_view() =~~= spec_conf_labels(glabels.take(0), options@));
            assert(mixed_labels.deep_view() =~~= spec_mixed_labels(glabels.take(0), options@));
        }
        let mut j: usize = 0;
        while j < labels.len()
            invariant
                j <= labels@.len(),
                labels@.len() == labels.deep_view().len(),
                labels.deep_view() == glabels,
                scan_l == spec_scan(SegmentView::Local, local@, options@),
                characters@.details == scan_l.findings + spec_domain_findings(
                    glabels.take(j as int),
                    options@,
                ),
                characters@.has_confusables == spec_has_class(
                    characters@.details,
                    SpecClass::Confusable,
                ),
                characters@.has_diacritics == spec_has_class(
                    characters@.details,
                    SpecClass::Diacritic,
                ),
                characters@.has_mixed_scripts == spec_has_class(
                    characters@.details,
                    SpecClass::MixedScript,
                ),
                characters@.normalized_ascii_hint is None,
                dom_buf@ == spec_domain_hint(glabels.take(j as int), options@),
                conf_labels.deep_view() == spec_conf_labels(glabels.take(j as int), options@),
                mixed_labels.deep_view() == spec_mixed_labels(glabels.take(j as int), options@),
            decreases labels@.len() - j,
        {
            let ghost det0 = characters@.details;
            let ghost dom0 = dom_buf@;
            if !dom_buf.as_str().is_empty() {
                dom_buf.push('.');
            }
            let label_text = chars_to_string(&labels[j]);
            let seg = SpecSegment::Label(label_text);
            let outcome = process_segment(&seg, &labels[j], options, &mut dom_buf, &mut characters);
            let lab_lower_chars = lower_chars(&labels[j]);
            let lab_lower = chars_to_string(&lab_lower_chars);
            let allowlisted = in_allowlist(options, lab_lower.as_str());
            if outcome.0 && !allowlisted && !contains_string(&conf_labels, lab_lower.as_str()) {
                conf_labels.push(lab_lower.clone());
            }
            let ghost confdone = conf_labels.deep_view();
            if outcome.1 && !allowlisted && !contains_string(&mixed_labels, lab_lower.as_str()) {
                mixed_labels.push(lab_lower.clone());
            }
            j = j + 1;
            proof {
                lemma_label_step(glabels, j as int, options@);
                let lscan = spec_scan(
                    SegmentView::Label(glabels[j - 1]),
                    glabels[j - 1],
                    options@,
                );
                assert(seg@ =~~= SegmentView::Label(glabels[j - 1]));
                assert(characters@.details =~~= scan_l.findings + spec_domain_findings(
                    glabels.take(j as int),
                    options@,
                ));
                lemma_has_class_append(det0, lscan.findings, SpecClass::Confusable);
                lemma_has_class_append(det0, lscan.findings, SpecClass::Diacritic);
                lemma_has_class_append(det0, lscan.findings, SpecClass::MixedScript);
                assert(characters@.details =~~= det0 + lscan.findings);
                assert(dom_buf@ =~= spec_domain_hint(glabels.take(j as int), options@));
                assert(conf_labels.deep_view() =~~= spec_conf_labels(
                    glabels.take(j as int),
                    options@,
                ));
                assert(mixed_labels.deep_view() =~~= spec_mixed_labels(
                    glabels.take(j as int),
                    options@,
                ));
            }
        }
        proof {
            assert(glabels.take(glabels.len() as int) =~= glabels);
        }
    } else {
        proof {
            assert(glabels =~= Seq::<Seq<char>>::empty());
            assert(characters@.details =~~= scan_l.findings + spec_domain_findings(
                glabels,
                options@,
            ));
            assert(conf_labels.deep_view() =~~= spec_conf_labels(glabels, options@));
            assert(mixed_labels.deep_view() =~~= spec_mixed_labels(glabels, options@));
        }
    }
    let hint: Option<String> = if options.ascii_hint {
        let dom_lower = lower_string(dom_buf.as_str());
        if !dom_lower.as_str().is_empty() {
            let mut h = local_buf;
            h.push('@');
            h.append(dom_lower.as_str());
            proof {
                assert(h@ =~= scan_l.hint + seq!['@'] + spec_lower(
                    spec_domain_hint(glabels, options@),
                ));
            }
            Some(h)
        } else if dchars.len() == 0 {
            Some(local_buf)
        } else {
            None
        }
    } else {
        None
    };
    characters.normalized_ascii_hint = hint;
    let r = SpecComputation {
        characters,
        confusable_labels_for_policy: conf_labels,
        mixed_labels_for_policy: mixed_labels,
    };
    proof {
        assert(r@.characters.details =~~= spec_all_findings(local@, domain@, options@));
        assert(r@ =~~= spec_analyze(local@, domain@, options@));
    }
    r
}



// ---------------------------------------------------------------------------
// Policy application
// ---------------------------------------------------------------------------

/// Append `m` to `rs` unless it is already present.
pub open spec fn spec_push_unique(rs: Seq<Seq<char>>, m: Seq<char>) -> Seq<Seq<char>> {
    if rs.contains(m) {
        rs
    } else {
        rs.push(m)
    }
}

/// Whether the (lowercased) domain is exactly `tld` or ends in `.tld`.
pub open spec fn spec_domain_matches_tld(domain_lower: Seq<char>, tld: Seq<char>) -> bool {
    tld.len() > 0 && (domain_lower == tld || spec_ends_with(domain_lower, seq!['.'] + tld))
}

/// The reasons after applying each `(tld, warning)` pair in order.
pub open spec fn spec_apply_warnings(
    rs: Seq<Seq<char>>,
    domain_lower: Seq<char>,
    warnings: Seq<(Seq<char>, Seq<char>)>,
) -> Seq<Seq<char>>
    decreases warnings.len(),
{
    if warnings.len() == 0 {
        rs
    } else {
        let pre = spec_apply_warnings(rs, domain_lower, warnings.drop_last());
        if spec_domain_matches_tld(domain_lower, warnings.last().0) {
            spec_push_unique(pre, warnings.last().1)
        } else {
            pre
        }
    }
}

/// The reasons after policy: the confusable reason when a non-allowlisted
/// label held a confusable, the TLD warnings, then the mixed-script reason.
pub open spec fn spec_apply_policy(
    a: AnalysisView,
    o: OptionsView,
    domain: Seq<char>,
    rs: Seq<Seq<char>>,
) -> Seq<Seq<char>> {
    let r1 = match o.domain_confusable_reason {
        Some(m) => if a.confusable_labels.len() > 0 {
            spec_push_unique(rs, m)
        } else {
            rs
        },
        None => rs,
    };
    let r2 = if a.confusable_labels.len() > 0 {
        spec_apply_warnings(r1, spec_lower(domain), o.confusable_tld_warnings)
    } else {
        r1
    };
    match o.domain_mixed_scripts_reason {
        Some(m) => if a.mixed_labels.len() > 0 {
            spec_push_unique(r2, m)
        } else {
            r2
        },
        None => r2,
    }
}

fn push_unique(reasons: &mut Vec<String>, m: &String)
    ensures
        final(reasons).deep_view() == spec_push_unique(old(reasons).deep_view(), m@),
{
    if !contains_string(reasons, m.as_str()) {
        reasons.push(m.clone());
        proof {
            assert(reasons.deep_view() =~~= spec_push_unique(old(reasons).deep_view(), m@));
        }
    }
}

fn domain_matches_tld(domain_lower: &Vec<char>, tld: &str) -> (r: bool)
    ensures
        r == spec_domain_matches_tld(domain_lower@, tld@),
{
    let tchars = str_to_chars(tld);
    if tchars.len() == 0 {
        return false;
    }
    let whole = crate::strutil::eq_ignore_case_chars(domain_lower, &tchars);
    let exact = if domain_lower.len() == tchars.len() {
        chars_equal(domain_lower, &tchars)
    } else {
        false
    };
    if exact {
        return true;
    }
    let mut needle: Vec<char> = Vec::new();
    needle.push('.');
    let mut i: usize = 0;
    while i < tchars.len()
        invariant
            i <= tchars@.len(),
            needle@ == seq!['.'] + tchars@.take(i as int),
        decreases tchars@.len() - i,
    {
        needle.push(tchars[i]);
        i = i + 1;
        proof {
            assert(needle@ =~= seq!['.'] + tchars@.take(i as int));
        }
    }
    proof {
        assert(needle@ =~= seq!['.'] + tld@);
    }
    ends_with_chars(domain_lower, &needle)
}

/// Element-wise equality of two character vectors of equal length.
fn chars_equal(a: &Vec<char>, b: &Vec<char>) -> (r: bool)
    requires
        a@.len() == b@.len(),
    ensures
        r == (a@ == b@),
{
    let mut i: usize = 0;
    while i < a.len()
        invariant
            i <= a@.len(),
            a@.len() == b@.len(),
            forall|k: int| 0 <= k < i ==> a@[k] == b@[k],
        decreases a@.len() - i,
    {
        if a[i] != b[i] {
            return false;
        }
        i = i + 1;
    }
    proof {
        assert(a@ =~= b@);
    }
    true
}

proof fn lemma_warning_step(
    rs: Seq<Seq<char>>,
    domain_lower: Seq<char>,
    warnings: Seq<(Seq<char>, Seq<char>)>,
    k: int,
)
    requires
        0 < k <= warnings.len(),
    ensures
        spec_apply_warnings(rs, domain_lower, warnings.take(k)) == (if spec_domain_matches_tld(
            domain_lower,
            warnings[k - 1].0,
        ) {
            spec_push_unique(
                spec_apply_warnings(rs, domain_lower, warnings.take(k - 1)),
                warnings[k - 1].1,
            )
        } else {
            spec_apply_warnings(rs, domain_lower, warnings.take(k - 1))
        }),
{
    assert(warnings.take(k).len() == k);
    assert(warnings.take(k).drop_last() =~= warnings.take(k - 1));
    assert(warnings.take(k).last() == warnings[k - 1]);
}

impl SpecComputation {
    /// Turn policy-relevant labels into validation reasons, without
    /// duplicating a reason already present.
    pub fn apply_policy(&self, options: &SpecOptions, domain: &str, reasons: &mut Vec<String>)
        ensures
            final(reasons).deep_view() == spec_apply_policy(
                self@,
                options@,
                domain@,
                old(reasons).deep_view(),
            ),
    {
        let domain_lower = lower_string(domain);
        let domain_lower_chars = str_to_chars(domain_lower.as_str());
        if let Some(reason) = &options.domain_confusable_reason {
            if self.confusable_labels_for_policy.len() > 0 {
                push_unique(reasons, reason);
            }
        }
        let ghost r1 = reasons.deep_view();
        if self.confusable_labels_for_policy.len() > 0 {
            let mut k: usize = 0;
            proof {
                assert(options@.confusable_tld_warnings.take(0)
                    =~= Seq::<(Seq<char>, Seq<char>)>::empty());
            }
            while k < options.confusable_tld_warnings.len()
                invariant
                    k <= options.confusable_tld_warnings@.len(),
                    options@.confusable_tld_warnings.len()
                        == options.confusable_tld_warnings@.len(),
                    domain_lower_chars@ == spec_lower(domain@),
                    reasons.deep_view() == spec_apply_warnings(
                        r1,
                        spec_lower(domain@),
                        options@.confusable_tld_warnings.take(k as int),
                    ),
                decreases options.confusable_tld_warnings@.len() - k,
            {
                let entry = &options.confusable_tld_warnings[k];
                if domain_matches_tld(&domain_lower_chars, entry.0.as_str()) {
                    push_unique(reasons, &entry.1);
                }
                k = k + 1;
                proof {
                    lemma_warning_step(r1, spec_lower(domain@), options@.confusable_tld_warnings,
                        k as int);
                    assert(options@.confusable_tld_warnings[k - 1].0 == entry.0@);
                    assert(options@.confusable_tld_warnings[k - 1].1 == entry.1@);
                }
            }
            proof {
                assert(options@.confusable_tld_warnings.take(
                    options@.confusable_tld_warnings.len() as int,
                ) =~= options@.confusable_tld_warnings);
            }
        }
        if let Some(reason) = &options.domain_mixed_scripts_reason {
            if self.mixed_labels_for_policy.len() > 0 {
                push_unique(reasons, reason);
            }
        }
    }
}

// ---------------------------------------------------------------------------
// Notes summary
// ---------------------------------------------------------------------------

/// The `Segment:` prefix written before each note.
pub open spec fn spec_segment_label(seg: SegmentView) -> Seq<char> {
    match seg {
        SegmentView::Local => "Local"@,
        SegmentView::Domain => "Domain"@,
        SegmentView::Label(l) => "Label("@ + l + ")"@,
    }
}

/// One line of the notes summary.
pub open spec fn spec_note_line(f: FindingView) -> Seq<char> {
    spec_segment_label(f.segment) + ": "@ + f.note
}

/// The note lines of all findings, in order.
pub open spec fn spec_note_lines(details: Seq<FindingView>) -> Seq<Seq<char>>
    decreases details.len(),
{
    if details.len() == 0 {
        Seq::<Seq<char>>::empty()
    } else {
        spec_note_lines(details.drop_last()).push(spec_note_line(details.last()))
    }
}

/// Render the `Segment:` prefix of a finding.
pub fn segment_label(seg: &SpecSegment) -> (r: String)
    ensures
        r@ == spec_segment_label(seg@),
{
    match seg {
        SpecSegment::Local => String::from_str("Local"),
        SpecSegment::Domain => String::from_str("Domain"),
        SpecSegment::Label(l) => {
            let mut m = String::from_str("Label(");
            m.append(l.as_str());
            m.append(")");
            proof {
                assert(m@ =~= spec_segment_label(seg@));
            }
            m
        },
    }
}

proof fn lemma_note_lines_step(details: Seq<FindingView>, j: int)
    requires
        0 < j <= details.len(),
    ensures
        spec_note_lines(details.take(j)) == spec_note_lines(details.take(j - 1)).push(
            spec_note_line(details[j - 1]),
        ),
{
    assert(details.take(j).len() == j);
    assert(details.take(j).drop_last() =~= details.take(j - 1));
    assert(details.take(j).last() == details[j - 1]);
}

/// Join all finding notes into one `Segment: note | ...` summary, or nothing
/// when there is no finding.
pub fn join_spec_notes(details: &Vec<SpecFinding>) -> (r: Option<String>)
    ensures
        match r {
            None => details@.len() == 0,
            Some(s) => details@.len() > 0 && s@ == spec_join(
                spec_note_lines(details.deep_view()),
                " | "@,
            ),
        },
{
    if details.len() == 0 {
        return None;
    }
    let mut lines: Vec<String> = Vec::new();
    let mut j: usize = 0;
    proof {
        assert(details.deep_view().take(0) =~= Seq::<FindingView>::empty());
        assert(lines.deep_view() =~~= spec_note_lines(details.deep_view().take(0)));
    }
    while j < details.len()
        invariant
            j <= details@.len(),
            details@.len() == details.deep_view().len(),
            lines.deep_view() == spec_note_lines(details.deep_view().take(j as int)),
        decreases details@.len() - j,
    {
        let f = &details[j];
        let mut line = segment_label(&f.segment);
        line.append(": ");
        line.append(f.note.as_str());
        lines.push(line);
        j = j + 1;
        proof {
            lemma_note_lines_step(details.deep_view(), j as int);
            assert(details.deep_view()[j - 1] == details@[j - 1]@);
            assert(lines.deep_view() =~~= spec_note_lines(details.deep_view().take(j as int)));
        }
    }
    proof {
        assert(details.deep_view().take(details.deep_view().len() as int) =~= details.deep_view());
    }
    Some(join_strings(&lines, " | "))
}



// ---------------------------------------------------------------------------
// ASCII purity of the hint
// ---------------------------------------------------------------------------

pub open spec fn spec_all_ascii(s: Seq<char>) -> bool {
    forall|i: int| 0 <= i < s.len() ==> spec_is_ascii_char(#[trigger] s[i])
}

proof fn lemma_tables_ascii(c: char)
    ensures
        match spec_confusable(c) {
            Some(conf) => spec_is_ascii_char(conf.0),
            None => true,
        },
        match spec_diacritic(c) {
            Some(repl) => spec_all_ascii(spec_repl_seq(repl)),
            None => true,
        },
        match spec_typographic(c) {
            Some(t) => spec_is_ascii_char(t),
            None => true,
        },
{
}

proof fn lemma_hint_char_ascii(c: char, fr: bool)
    ensures
        spec_all_ascii(spec_hint_char_out(c, fr)),
{
    lemma_tables_ascii(c);
    match spec_hint_for_char(c, fr) {
        Some(h) => {
            if !is_combining_of(c) && spec_confusable(c) is None && spec_diacritic(c) is None
                && !(fr && spec_typographic(c) is Some) {
                assert(h == spec_nfkd_ascii(c));
                lemma_nfkd_ascii_pure(nfkd_of(c));
            }
        },
        None => {
            assert(spec_is_ascii_char(c));
            assert(spec_hint_char_out(c, fr) =~= seq![c]);
        },
    }
}

proof fn lemma_nfkd_ascii_pure(s: Seq<char>)
    ensures
        spec_all_ascii(crate::unicode::spec_keep_ascii_noncombining(s)),
    decreases s.len(),
{
    if s.len() > 0 {
        lemma_nfkd_ascii_pure(s.drop_last());
    }
}

proof fn lemma_scan_hint_ascii(seg: SegmentView, text: Seq<char>, o: OptionsView)
    ensures
        spec_all_ascii(spec_scan(seg, text, o).hint),
    decreases text.len(),
{
    if text.len() > 0 {
        lemma_scan_hint_ascii(seg, text.drop_last(), o);
        lemma_hint_char_ascii(text.last(), o.use_fr_hint_extensions);
        let pre = spec_scan(seg, text.drop_last(), o);
        let h = spec_hint_char_out(text.last(), o.use_fr_hint_extensions);
        assert(spec_all_ascii(pre.hint + h)) by {
            assert(forall|i: int| 0 <= i < pre.hint.len() ==> (pre.hint + h)[i] == pre.hint[i]);
            assert(forall|i: int|
                pre.hint.len() <= i < pre.hint.len() + h.len() ==> (pre.hint + h)[i] == h[i
                    - pre.hint.len()]);
        }
    }
}

proof fn lemma_domain_hint_ascii(labels: Seq<Seq<char>>, o: OptionsView)
    ensures
        spec_all_ascii(spec_domain_hint(labels, o)),
    decreases labels.len(),
{
    if labels.len() > 0 {
        lemma_domain_hint_ascii(labels.drop_last(), o);
        let pre = spec_domain_hint(labels.drop_last(), o);
        let lab = labels.last();
        lemma_scan_hint_ascii(SegmentView::Label(lab), lab, o);
        let h = spec_scan(SegmentView::Label(lab), lab, o).hint;
        let dot: Seq<char> = if pre.len() > 0 {
            seq!['.']
        } else {
            Seq::<char>::empty()
        };
        assert(spec_all_ascii(dot));
        assert(spec_all_ascii(pre + dot + h)) by {
            assert(forall|i: int| 0 <= i < pre.len() ==> (pre + dot + h)[i] == pre[i]);
            assert(forall|i: int|
                pre.len() <= i < pre.len() + dot.len() ==> (pre + dot + h)[i] == dot[i
                    - pre.len()]);
            assert(forall|i: int|
                pre.len() + dot.len() <= i < pre.len() + dot.len() + h.len() ==> (pre + dot
                    + h)[i] == h[i - pre.len() - dot.len()]);
        }
    }
}

proof fn lemma_lower_keeps_ascii(s: Seq<char>)
    requires
        spec_all_ascii(s),
    ensures
        spec_all_ascii(spec_lower(s)),
{
    assert forall|i: int| 0 <= i < spec_lower(s).len() implies spec_is_ascii_char(
        #[trigger] spec_lower(s)[i],
    ) by {
        assert(spec_lower(s)[i] == crate::strutil::spec_lower_char(s[i]));
    }
}

/// Every character of the exposed ASCII hint is ASCII.
pub proof fn lemma_full_hint_ascii(local: Seq<char>, domain: Seq<char>, o: OptionsView)
    ensures
        match spec_full_hint(local, domain, o) {
            Some(h) => spec_all_ascii(h),
            None => true,
        },
{
    if o.ascii_hint {
        lemma_scan_hint_ascii(SegmentView::Local, local, o);
        let lh = spec_scan(SegmentView::Local, local, o).hint;
        lemma_domain_hint_ascii(spec_domain_labels(domain), o);
        let dh_raw = spec_domain_hint(spec_domain_labels(domain), o);
        lemma_lower_keeps_ascii(dh_raw);
        let dh = spec_lower(dh_raw);
        if dh.len() > 0 {
            let at: Seq<char> = seq!['@'];
            assert(spec_all_ascii(lh + at + dh)) by {
                assert(forall|i: int| 0 <= i < lh.len() ==> (lh + at + dh)[i] == lh[i]);
                assert((lh + at + dh)[lh.len() as int] == '@');
                assert(forall|i: int|
                    lh.len() + 1 <= i < lh.len() + 1 + dh.len() ==> (lh + at + dh)[i] == dh[i
                        - lh.len() - 1]);
            }
        }
    }
}


} // verus!
