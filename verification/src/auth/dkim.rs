//! DKIM record evaluation: the `_domainkey` policy record and per-selector
//! key records, classified by version, public key and testing flag.

use vstd::prelude::*;

verus! {

use vstd::string::StringExecFns;
use crate::strutil::{spec_trim, spec_lower, spec_str_sort, spec_str_dedup, trim_str,
    chars_to_string, str_to_chars, lower_string, str_eq, clone_string_vec, sort_strings,
    dedup_strings};
use super::tags::{spec_tag_lookup, spec_flags_contain_y, tag_lookup, flags_contain_y};
use super::types::{DkimStatus, DkimPolicyStatus, DkimPolicyStatusView, DkimSelectorStatus,
    DkimSelectorStatusView, DkimIssue, DkimWeakness};

/// Each record, trimmed.
pub open spec fn spec_sanitized(records: Seq<Seq<char>>) -> Seq<Seq<char>>
    decreases records.len(),
{
    if records.len() == 0 {
        Seq::<Seq<char>>::empty()
    } else {
        spec_sanitized(records.drop_last()).push(spec_trim(records.last()))
    }
}

/// Whether a record's `v` tag declares version `DKIM1`.
pub open spec fn spec_is_dkim1(record: Seq<char>) -> bool {
    match spec_tag_lookup(record, "v"@) {
        Some(v) => spec_lower(v) == "dkim1"@,
        None => false,
    }
}

/// The records declaring version `DKIM1`, in order.
pub open spec fn spec_relevant(sanitized: Seq<Seq<char>>) -> Seq<Seq<char>>
    decreases sanitized.len(),
{
    if sanitized.len() == 0 {
        Seq::<Seq<char>>::empty()
    } else {
        spec_relevant(sanitized.drop_last()) + (if spec_is_dkim1(sanitized.last()) {
            seq![sanitized.last()]
        } else {
            Seq::<Seq<char>>::empty()
        })
    }
}

/// Whether a record's `t` tag carries the `y` testing flag.
pub open spec fn spec_testing(record: Seq<char>) -> bool {
    match spec_tag_lookup(record, "t"@) {
        Some(v) => spec_flags_contain_y(v),
        None => false,
    }
}

/// The public key a record declares, if any.
pub open spec fn spec_public_key(record: Seq<char>) -> Option<Seq<char>> {
    spec_tag_lookup(record, "p"@)
}

/// The `DKIM1` records that remain after sorting and deduplicating.
pub open spec fn spec_distinct_relevant(sanitized: Seq<Seq<char>>) -> Seq<Seq<char>> {
    spec_str_dedup(spec_str_sort(spec_relevant(sanitized)))
}

/// The status of the `_domainkey` policy record of a domain. Several
/// distinct `DKIM1` records are invalid; their count is taken after
/// deduplication and the carried record is the first in sort order.
pub open spec fn spec_dkim_policy_status(records: Seq<Seq<char>>) -> DkimPolicyStatusView {
    if records.len() == 0 {
        DkimPolicyStatusView::Missing
    } else {
        let sanitized = spec_sanitized(records);
        let distinct = spec_distinct_relevant(sanitized);
        if distinct.len() == 0 {
            DkimPolicyStatusView::Invalid {
                record: sanitized[0],
                issue: DkimIssue::InvalidVersion,
            }
        } else if distinct.len() > 1 {
            DkimPolicyStatusView::Invalid {
                record: distinct[0],
                issue: DkimIssue::MultipleRecords { count: distinct.len() as usize },
            }
        } else {
            DkimPolicyStatusView::Present {
                record: distinct[0],
                testing: spec_testing(distinct[0]),
            }
        }
    }
}

/// The status of one selector's key record, with the same distinct-record
/// rule as the policy record.
pub open spec fn spec_dkim_selector_status(selector: Seq<char>, records: Seq<Seq<char>>)
    -> DkimSelectorStatusView {
    if records.len() == 0 {
        DkimSelectorStatusView::Missing { selector }
    } else {
        let sanitized = spec_sanitized(records);
        let distinct = spec_distinct_relevant(sanitized);
        if distinct.len() == 0 {
            DkimSelectorStatusView::Invalid {
                selector,
                records: sanitized,
                issue: DkimIssue::InvalidVersion,
            }
        } else if distinct.len() > 1 {
            DkimSelectorStatusView::Invalid {
                selector,
                records: sanitized,
                issue: DkimIssue::MultipleRecords { count: distinct.len() as usize },
            }
        } else {
            let record = distinct[0];
            let key_missing = match spec_public_key(record) {
                Some(k) => k.len() == 0,
                None => true,
            };
            if key_missing {
                DkimSelectorStatusView::Invalid {
                    selector,
                    records: sanitized,
                    issue: DkimIssue::MissingPublicKey,
                }
            } else if spec_testing(record) {
                DkimSelectorStatusView::Weak {
                    selector,
                    record,
                    weakness: DkimWeakness::TestingFlag,
                }
            } else {
                DkimSelectorStatusView::Compliant { selector, record }
            }
        }
    }
}

proof fn lemma_sanitized_len(s: Seq<Seq<char>>)
    ensures
        spec_sanitized(s).len() == s.len(),
    decreases s.len(),
{
    if s.len() > 0 {
        lemma_sanitized_len(s.drop_last());
    }
}

/// The selector any selector status of `spec_dkim_selector_status` names.
pub proof fn lemma_selector_status_name_pub(selector: Seq<char>, records: Seq<Seq<char>>)
    ensures
        spec_selector_name(spec_dkim_selector_status(selector, records)) == selector,
{
}

/// The selector a selector status speaks about.
pub open spec fn spec_selector_name(v: DkimSelectorStatusView) -> Seq<char> {
    match v {
        DkimSelectorStatusView::Missing { selector } => selector,
        DkimSelectorStatusView::Invalid { selector, .. } => selector,
        DkimSelectorStatusView::Weak { selector, .. } => selector,
        DkimSelectorStatusView::Compliant { selector, .. } => selector,
    }
}

/// Trim every record and keep the `DKIM1`-versioned ones.
fn sanitize_and_filter(records: &Vec<String>) -> (r: (Vec<String>, Vec<String>))
    ensures
        r.0.deep_view() == spec_sanitized(records.deep_view()),
        r.1.deep_view() == spec_relevant(spec_sanitized(records.deep_view())),
{
    let mut sanitized: Vec<String> = Vec::new();
    let mut relevant: Vec<String> = Vec::new();
    let mut i: usize = 0;
    proof {
        assert(records.deep_view().take(0) =~= Seq::<Seq<char>>::empty());
        assert(sanitized.deep_view() =~~= spec_sanitized(records.deep_view().take(0)));
        assert(relevant.deep_view() =~~= spec_relevant(
            spec_sanitized(records.deep_view().take(0)),
        ));
    }
    while i < records.len()
        invariant
            i <= records@.len(),
            records@.len() == records.deep_view().len(),
            sanitized.deep_view() == spec_sanitized(records.deep_view().take(i as int)),
            relevant.deep_view() == spec_relevant(
                spec_sanitized(records.deep_view().take(i as int)),
            ),
        decreases records@.len() - i,
    {
        let ghost spre = sanitized.deep_view();
        let ghost rpre = relevant.deep_view();
        let trimmed = chars_to_string(&trim_str(records[i].as_str()));
        let is_dkim1 = match tag_lookup(trimmed.as_str(), "v") {
            Some(v) => {
                let lowered = lower_string(v.as_str());
                str_eq(lowered.as_str(), "dkim1")
            },
            None => false,
        };
        let ghost trimmed_view = trimmed@;
        sanitized.push(trimmed.clone());
        if is_dkim1 {
            relevant.push(trimmed);
        }
        i = i + 1;
        proof {
            let t = records.deep_view().take(i as int);
            assert(t.drop_last() =~= records.deep_view().take(i - 1));
            assert(t.last() == records.deep_view()[i - 1]);
            assert(records.deep_view()[i - 1] == records@[i - 1]@);
            assert(spec_sanitized(t) =~~= spec_sanitized(t.drop_last()).push(spec_trim(t.last())));
            assert(sanitized.deep_view() =~~= spre.push(spec_trim(t.last())));
            let s2 = spec_sanitized(t);
            assert(s2.drop_last() =~= spec_sanitized(t.drop_last()));
            assert(s2.last() == spec_trim(t.last()));
            if is_dkim1 {
                assert(relevant.deep_view() =~~= rpre.push(spec_trim(t.last())));
                assert(spec_relevant(s2) =~~= spec_relevant(s2.drop_last()) + seq![s2.last()]);
            } else {
                assert(spec_relevant(s2) =~~= spec_relevant(s2.drop_last()));
            }
        }
    }
    proof {
        assert(records.deep_view().take(records@.len() as int) =~= records.deep_view());
    }
    (sanitized, relevant)
}

/// The policy status used when the caller disabled the `_domainkey` check.
pub fn policy_not_requested() -> (r: DkimPolicyStatus)
    ensures
        r@ == DkimPolicyStatusView::NotRequested,
{
    DkimPolicyStatus::NotRequested
}

/// Combine the policy verdict and the selector verdicts.
pub fn assemble_status(policy: DkimPolicyStatus, selectors: Vec<DkimSelectorStatus>) -> (r:
    DkimStatus)
    ensures
        r.policy == policy,
        r.selectors == selectors,
{
    DkimStatus { policy, selectors }
}

/// Evaluate the `_domainkey` policy record of a domain.
pub fn dkim_policy_status(records: &Vec<String>) -> (r: DkimPolicyStatus)
    ensures
        r@ == spec_dkim_policy_status(records.deep_view()),
{
    if records.len() == 0 {
        return DkimPolicyStatus::Missing;
    }
    let pair = sanitize_and_filter(records);
    let sanitized = pair.0;
    let sorted = sort_strings(&pair.1);
    let distinct = dedup_strings(&sorted);
    if distinct.len() == 0 {
        proof {
            lemma_sanitized_len(records.deep_view());
        }
        proof {
            assert(sanitized.deep_view()[0] == sanitized@[0]@);
        }
        let fallback = sanitized[0].clone();
        let r = DkimPolicyStatus::Invalid { record: fallback, issue: DkimIssue::InvalidVersion };
        proof {
            assert(r@ =~~= spec_dkim_policy_status(records.deep_view()));
        }
        return r;
    }
    if distinct.len() > 1 {
        let count = distinct.len();
        proof {
            assert(distinct.deep_view()[0] == distinct@[0]@);
        }
        let first = distinct[0].clone();
        let r = DkimPolicyStatus::Invalid {
            record: first,
            issue: DkimIssue::MultipleRecords { count },
        };
        proof {
            assert(r@ =~~= spec_dkim_policy_status(records.deep_view()));
        }
        return r;
    }
    let record = distinct[0].clone();
    proof {
        assert(distinct.deep_view()[0] == record@);
    }
    let testing = match tag_lookup(record.as_str(), "t") {
        Some(v) => flags_contain_y(v.as_str()),
        None => false,
    };
    let r = DkimPolicyStatus::Present { record, testing };
    proof {
        assert(r@ =~~= spec_dkim_policy_status(records.deep_view()));
    }
    r
}

/// Evaluate one selector's key record at `<selector>._domainkey.<domain>`.
pub fn dkim_selector_status(selector: &str, records: &Vec<String>) -> (r: DkimSelectorStatus)
    ensures
        r@ == spec_dkim_selector_status(selector@, records.deep_view()),
{
    let mut selector_owned = String::new();
    selector_owned.append(selector);
    if records.len() == 0 {
        let r = DkimSelectorStatus::Missing { selector: selector_owned };
        proof {
            assert(r@ =~~= spec_dkim_selector_status(selector@, records.deep_view()));
        }
        return r;
    }
    let pair = sanitize_and_filter(records);
    let sanitized = pair.0;
    let sorted = sort_strings(&pair.1);
    let distinct = dedup_strings(&sorted);
    if distinct.len() == 0 {
        let r = DkimSelectorStatus::Invalid {
            selector: selector_owned,
            records: sanitized,
            issue: DkimIssue::InvalidVersion,
        };
        proof {
            assert(r@ =~~= spec_dkim_selector_status(selector@, records.deep_view()));
        }
        return r;
    }
    if distinct.len() > 1 {
        let count = distinct.len();
        let r = DkimSelectorStatus::Invalid {
            selector: selector_owned,
            records: sanitized,
            issue: DkimIssue::MultipleRecords { count },
        };
        proof {
            assert(r@ =~~= spec_dkim_selector_status(selector@, records.deep_view()));
        }
        return r;
    }
    let record = distinct[0].clone();
    proof {
        assert(distinct.deep_view()[0] == distinct@[0]@);
        assert(distinct.deep_view()[0] == record@);
    }
    let key_missing = match tag_lookup(record.as_str(), "p") {
        Some(k) => k.as_str().is_empty(),
        None => true,
    };
    if key_missing {
        let r = DkimSelectorStatus::Invalid {
            selector: selector_owned,
            records: sanitized,
            issue: DkimIssue::MissingPublicKey,
        };
        proof {
            assert(r@ =~~= spec_dkim_selector_status(selector@, records.deep_view()));
        }
        return r;
    }
    let testing = match tag_lookup(record.as_str(), "t") {
        Some(v) => flags_contain_y(v.as_str()),
        None => false,
    };
    let r = if testing {
        DkimSelectorStatus::Weak {
            selector: selector_owned,
            record,
            weakness: DkimWeakness::TestingFlag,
        }
    } else {
        DkimSelectorStatus::Compliant { selector: selector_owned, record }
    };
    proof {
        assert(r@ =~~= spec_dkim_selector_status(selector@, records.deep_view()));
    }
    r
}

} // verus!
