//! SPF record evaluation: filter `v=spf1` records, find the terminal `all`
//! qualifier or a `redirect=` modifier, and classify.

use vstd::prelude::*;

verus! {

use crate::strutil::{spec_trim, spec_lower, spec_tokens, spec_starts_with_icase, spec_str_sort,
    spec_str_dedup, trim_str, chars_to_string, str_to_chars, tokens_chars, starts_with_icase_chars,
    eq_ignore_case_chars, lower_chars, sort_strings, dedup_strings, trim_chars, str_eq,
    skip_chars};
use super::types::{SpfStatus, SpfStatusView, SpfIssue, SpfQualifier};

/// The trimmed records whose first characters are `v=spf1`, compared
/// case-insensitively.
pub open spec fn spec_spf_filter(records: Seq<Seq<char>>) -> Seq<Seq<char>>
    decreases records.len(),
{
    if records.len() == 0 {
        Seq::<Seq<char>>::empty()
    } else {
        spec_spf_filter(records.drop_last()) + (if spec_starts_with_icase(
            spec_trim(records.last()),
            "v=spf1"@,
        ) {
            seq![spec_trim(records.last())]
        } else {
            Seq::<Seq<char>>::empty()
        })
    }
}

/// The qualifier an `all` directive (already lowercased) declares.
pub open spec fn spec_qualifier(token_lower: Seq<char>) -> Option<SpfQualifier> {
    if token_lower == "-all"@ {
        Some(SpfQualifier::Fail)
    } else if token_lower == "~all"@ {
        Some(SpfQualifier::SoftFail)
    } else if token_lower == "?all"@ {
        Some(SpfQualifier::Neutral)
    } else if token_lower == "all"@ || token_lower == "+all"@ {
        Some(SpfQualifier::Pass)
    } else {
        None
    }
}

/// The first qualifier among the tokens from index `i` on.
pub open spec fn spec_first_qualifier(toks: Seq<Seq<char>>, i: int) -> Option<SpfQualifier>
    decreases toks.len() - i,
{
    if i < 0 || i >= toks.len() {
        None
    } else {
        match spec_qualifier(spec_lower(toks[i])) {
            Some(q) => Some(q),
            None => spec_first_qualifier(toks, i + 1),
        }
    }
}

/// The redirect target a token declares, if any: the trimmed text after
/// `redirect=`, when non-empty.
pub open spec fn spec_redirect_target(tok: Seq<char>) -> Option<Seq<char>> {
    if spec_starts_with_icase(tok, "redirect="@) {
        let v = spec_trim(tok.skip(9));
        if v.len() > 0 {
            Some(v)
        } else {
            None
        }
    } else {
        None
    }
}

/// The first redirect target among the tokens from index `i` on.
pub open spec fn spec_first_redirect(toks: Seq<Seq<char>>, i: int) -> Option<Seq<char>>
    decreases toks.len() - i,
{
    if i < 0 || i >= toks.len() {
        None
    } else {
        match spec_redirect_target(toks[i]) {
            Some(t) => Some(t),
            None => spec_first_redirect(toks, i + 1),
        }
    }
}

/// The SPF verdict over the TXT records of a domain: `Missing` without a
/// `v=spf1` record, `MultipleRecords` (sorted, duplicate-free) when more
/// than one distinct record remains, else the single distinct record's
/// terminal qualifier, redirect, or fault.
pub open spec fn spec_evaluate_spf(records: Seq<Seq<char>>) -> SpfStatusView {
    let f = spec_spf_filter(records);
    let distinct = spec_str_dedup(spec_str_sort(f));
    if f.len() == 0 {
        SpfStatusView::Missing
    } else if distinct.len() > 1 {
        SpfStatusView::MultipleRecords { records: distinct }
    } else {
        let record = distinct[0];
        let toks = spec_tokens(record);
        if toks.len() == 0 || spec_lower(toks[0]) != "v=spf1"@ {
            SpfStatusView::Invalid { record, issue: SpfIssue::InvalidVersion }
        } else {
            match spec_first_qualifier(toks, 1) {
                Some(SpfQualifier::Fail) => SpfStatusView::Compliant {
                    record,
                    qualifier: SpfQualifier::Fail,
                },
                Some(SpfQualifier::SoftFail) => SpfStatusView::Compliant {
                    record,
                    qualifier: SpfQualifier::SoftFail,
                },
                Some(SpfQualifier::Neutral) => SpfStatusView::Weak {
                    record,
                    qualifier: SpfQualifier::Neutral,
                },
                Some(SpfQualifier::Pass) => SpfStatusView::Weak {
                    record,
                    qualifier: SpfQualifier::Pass,
                },
                None => match spec_first_redirect(toks, 1) {
                    Some(t) => SpfStatusView::Delegated { record, target: t },
                    None => SpfStatusView::Invalid {
                        record,
                        issue: SpfIssue::MissingAllMechanism,
                    },
                },
            }
        }
    }
}

fn qualifier_from_token(token_lower: &Vec<char>) -> (r: Option<SpfQualifier>)
    ensures
        r == spec_qualifier(token_lower@),
{
    let s = chars_to_string(token_lower);
    if str_eq(s.as_str(), "-all") {
        Some(SpfQualifier::Fail)
    } else if str_eq(s.as_str(), "~all") {
        Some(SpfQualifier::SoftFail)
    } else if str_eq(s.as_str(), "?all") {
        Some(SpfQualifier::Neutral)
    } else if str_eq(s.as_str(), "all") || str_eq(s.as_str(), "+all") {
        Some(SpfQualifier::Pass)
    } else {
        None
    }
}

/// Evaluate the SPF status of the TXT records of a domain.
pub fn evaluate_spf(records: &Vec<String>) -> (r: SpfStatus)
    ensures
        r@ == spec_evaluate_spf(records.deep_view()),
{
    let mut filtered: Vec<String> = Vec::new();
    let prefix = str_to_chars("v=spf1");
    let mut i: usize = 0;
    proof {
        assert(records.deep_view().take(0) =~= Seq::<Seq<char>>::empty());
        assert(filtered.deep_view() =~~= spec_spf_filter(records.deep_view().take(0)));
    }
    while i < records.len()
        invariant
            i <= records@.len(),
            records@.len() == records.deep_view().len(),
            prefix@ == "v=spf1"@,
            filtered.deep_view() == spec_spf_filter(records.deep_view().take(i as int)),
        decreases records@.len() - i,
    {
        let ghost fpre = filtered.deep_view();
        let trimmed = trim_str(records[i].as_str());
        let keep = starts_with_icase_chars(&trimmed, &prefix);
        if keep {
            filtered.push(chars_to_string(&trimmed));
        }
        i = i + 1;
        proof {
            let t = records.deep_view().take(i as int);
            assert(t.drop_last() =~= records.deep_view().take(i - 1));
            assert(t.last() == records.deep_view()[i - 1]);
            assert(records.deep_view()[i - 1] == records@[i - 1]@);
            assert(trimmed@ == spec_trim(t.last()));
            if keep {
                assert(filtered.deep_view() =~~= fpre.push(trimmed@));
                assert(spec_spf_filter(t) =~~= spec_spf_filter(t.drop_last()) + seq![
                    spec_trim(t.last()),
                ]);
                assert(filtered.deep_view() =~~= spec_spf_filter(t));
            } else {
                assert(spec_spf_filter(t) =~~= spec_spf_filter(t.drop_last()));
            }
        }
    }
    proof {
        assert(records.deep_view().take(records@.len() as int) =~= records.deep_view());
    }

    if filtered.len() == 0 {
        return SpfStatus::Missing;
    }
    let sorted = sort_strings(&filtered);
    let deduped = dedup_strings(&sorted);
    if deduped.len() > 1 {
        let r = SpfStatus::MultipleRecords { records: deduped };
        proof {
            assert(r@ =~~= spec_evaluate_spf(records.deep_view()));
        }
        return r;
    }

    proof {
        assert(deduped.deep_view().len() == 1);
        assert(deduped.deep_view()[0] == deduped@[0]@);
    }
    let record = deduped[0].clone();
    let record_chars = str_to_chars(record.as_str());
    let toks = tokens_chars(&record_chars);
    proof {
        assert(deduped.deep_view()[0] == record@);
    }
    let version_ok = if toks.len() == 0 {
        false
    } else {
        proof {
            assert(toks.deep_view()[0] == toks@[0]@);
        }
        let lowered = chars_to_string(&lower_chars(&toks[0]));
        str_eq(lowered.as_str(), "v=spf1")
    };
    if !version_ok {
        let r = SpfStatus::Invalid { record, issue: SpfIssue::InvalidVersion };
        proof {
            assert(r@ =~~= spec_evaluate_spf(records.deep_view()));
        }
        return r;
    }

    let mut qualifier: Option<SpfQualifier> = None;
    let mut redirect: Option<String> = None;
    let redirect_prefix = str_to_chars("redirect=");
    let mut k: usize = 1;
    while k < toks.len()
        invariant
            1 <= k <= toks@.len(),
            toks@.len() == toks.deep_view().len(),
            toks.deep_view() == spec_tokens(record@),
            redirect_prefix@ == "redirect="@,
            match qualifier {
                Some(q) => spec_first_qualifier(toks.deep_view(), 1) == Some(q),
                None => spec_first_qualifier(toks.deep_view(), 1) == spec_first_qualifier(
                    toks.deep_view(),
                    k as int,
                ),
            },
            match redirect {
                Some(t) => spec_first_redirect(toks.deep_view(), 1) == Some(t@),
                None => spec_first_redirect(toks.deep_view(), 1) == spec_first_redirect(
                    toks.deep_view(),
                    k as int,
                ),
            },
        decreases toks@.len() - k,
    {
        proof {
            assert(toks.deep_view()[k as int] == toks@[k as int]@);
        }
        if qualifier.is_none() {
            let lowered = lower_chars(&toks[k]);
            qualifier = qualifier_from_token(&lowered);
        }
        if redirect.is_none() && starts_with_icase_chars(&toks[k], &redirect_prefix) {
            proof {
                reveal_strlit("redirect=");
            }
            let after = skip_chars(&toks[k], 9);
            let target = trim_chars(&after);
            if target.len() > 0 {
                redirect = Some(chars_to_string(&target));
            }
        }
        k = k + 1;
    }

    let r = match qualifier {
        Some(SpfQualifier::Fail) => SpfStatus::Compliant {
            record,
            qualifier: SpfQualifier::Fail,
        },
        Some(SpfQualifier::SoftFail) => SpfStatus::Compliant {
            record,
            qualifier: SpfQualifier::SoftFail,
        },
        Some(SpfQualifier::Neutral) => SpfStatus::Weak { record, qualifier: SpfQualifier::Neutral },
        Some(SpfQualifier::Pass) => SpfStatus::Weak { record, qualifier: SpfQualifier::Pass },
        None => match redirect {
            Some(target) => SpfStatus::Delegated { record, target },
            None => SpfStatus::Invalid { record, issue: SpfIssue::MissingAllMechanism },
        },
    };
    proof {
        assert(r@ =~~= spec_evaluate_spf(records.deep_view()));
    }
    r
}

} // verus!
