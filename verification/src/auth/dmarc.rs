//! DMARC record evaluation: filter `v=DMARC1` records, parse the tag list,
//! and classify by the `p=` policy.

use vstd::prelude::*;

verus! {

use crate::strutil::{spec_trim, spec_lower, spec_starts_with_icase, spec_str_sort, spec_str_dedup,
    trim_str, chars_to_string, str_to_chars, starts_with_icase_chars, sort_strings, dedup_strings,
    lower_string, str_eq};
use super::tags::{spec_tag_lookup, tag_lookup};
use super::types::{DmarcStatus, DmarcStatusView, DmarcIssue, DmarcIssueView, DmarcPolicy,
    DmarcWeakness};

/// The trimmed records whose first characters are `v=dmarc1`, compared
/// case-insensitively.
pub open spec fn spec_dmarc_filter(records: Seq<Seq<char>>) -> Seq<Seq<char>>
    decreases records.len(),
{
    if records.len() == 0 {
        Seq::<Seq<char>>::empty()
    } else {
        spec_dmarc_filter(records.drop_last()) + (if spec_starts_with_icase(
            spec_trim(records.last()),
            "v=dmarc1"@,
        ) {
            seq![spec_trim(records.last())]
        } else {
            Seq::<Seq<char>>::empty()
        })
    }
}

/// The verdict of the single surviving record, by its tags.
pub open spec fn spec_dmarc_single(record: Seq<char>) -> DmarcStatusView {
    match spec_tag_lookup(record, "v"@) {
        None => DmarcStatusView::Invalid { record, issue: DmarcIssueView::InvalidVersion },
        Some(version) => {
            if spec_lower(version) != "dmarc1"@ {
                DmarcStatusView::Invalid { record, issue: DmarcIssueView::InvalidVersion }
            } else {
                match spec_tag_lookup(record, "p"@) {
                    None => DmarcStatusView::Invalid {
                        record,
                        issue: DmarcIssueView::MissingPolicy,
                    },
                    Some(policy) => {
                        let p = spec_lower(policy);
                        if p == "reject"@ {
                            DmarcStatusView::Compliant { record, policy: DmarcPolicy::Reject }
                        } else if p == "quarantine"@ {
                            DmarcStatusView::Weak {
                                record,
                                policy: DmarcPolicy::Quarantine,
                                weakness: DmarcWeakness::QuarantinePolicy,
                            }
                        } else if p == "none"@ {
                            DmarcStatusView::Weak {
                                record,
                                policy: DmarcPolicy::NoPolicy,
                                weakness: DmarcWeakness::MonitoringPolicy,
                            }
                        } else {
                            DmarcStatusView::Invalid {
                                record,
                                issue: DmarcIssueView::UnknownPolicy { policy: p },
                            }
                        }
                    },
                }
            }
        },
    }
}

/// The DMARC verdict over the TXT records at `_dmarc.<domain>`: `Missing`
/// without a `v=DMARC1` record, `MultipleRecords` when more than one
/// distinct record remains after sorting and deduplicating, else the single
/// distinct record's verdict.
pub open spec fn spec_evaluate_dmarc(records: Seq<Seq<char>>) -> DmarcStatusView {
    let f = spec_dmarc_filter(records);
    let distinct = spec_str_dedup(spec_str_sort(f));
    if f.len() == 0 {
        DmarcStatusView::Missing
    } else if distinct.len() > 1 {
        DmarcStatusView::MultipleRecords { records: distinct }
    } else {
        spec_dmarc_single(distinct[0])
    }
}

/// Evaluate the DMARC status of the TXT records at `_dmarc.<domain>`.
pub fn evaluate_dmarc(records: &Vec<String>) -> (r: DmarcStatus)
    ensures
        r@ == spec_evaluate_dmarc(records.deep_view()),
{
    let mut filtered: Vec<String> = Vec::new();
    let prefix = str_to_chars("v=dmarc1");
    let mut i: usize = 0;
    proof {
        assert(records.deep_view().take(0) =~= Seq::<Seq<char>>::empty());
        assert(filtered.deep_view() =~~= spec_dmarc_filter(records.deep_view().take(0)));
    }
    while i < records.len()
        invariant
            i <= records@.len(),
            records@.len() == records.deep_view().len(),
            prefix@ == "v=dmarc1"@,
            filtered.deep_view() == spec_dmarc_filter(records.deep_view().take(i as int)),
        decreases records@.len() - i,
    {
        let ghost fpre = filtered.deep_view();
        let trimmed = trim_str(records[i].as_str());
        let keep = starts_with_icase_chars(&trimmed, &prefix);
        if keep {
            filtered.push(chars_to_string(&trimmed));
        }
        i = i + 1;
        proof {
            let t = records.deep_view().take(i as int);
            assert(t.drop_last() =~= records.deep_view().take(i - 1));
            assert(t.last() == records.deep_view()[i - 1]);
            assert(records.deep_view()[i - 1] == records@[i - 1]@);
            assert(trimmed@ == spec_trim(t.last()));
            if keep {
                assert(filtered.deep_view() =~~= fpre.push(trimmed@));
                assert(spec_dmarc_filter(t) =~~= spec_dmarc_filter(t.drop_last()) + seq![
                    spec_trim(t.last()),
                ]);
                assert(filtered.deep_view() =~~= spec_dmarc_filter(t));
            } else {
                assert(spec_dmarc_filter(t) =~~= spec_dmarc_filter(t.drop_last()));
            }
        }
    }
    proof {
        assert(records.deep_view().take(records@.len() as int) =~= records.deep_view());
    }

    if filtered.len() == 0 {
        return DmarcStatus::Missing;
    }
    let sorted = sort_strings(&filtered);
    let deduped = dedup_strings(&sorted);
    if deduped.len() > 1 {
        let r = DmarcStatus::MultipleRecords { records: deduped };
        proof {
            assert(r@ =~~= spec_evaluate_dmarc(records.deep_view()));
        }
        return r;
    }

    proof {
        assert(deduped.deep_view().len() == 1);
        assert(deduped.deep_view()[0] == deduped@[0]@);
    }
    let record = deduped[0].clone();
    proof {
        assert(deduped.deep_view()[0] == record@);
    }
    let version = tag_lookup(record.as_str(), "v");
    let r = match version {
        None => DmarcStatus::Invalid { record, issue: DmarcIssue::InvalidVersion },
        Some(v) => {
            let v_lower = lower_string(v.as_str());
            if !str_eq(v_lower.as_str(), "dmarc1") {
                DmarcStatus::Invalid { record, issue: DmarcIssue::InvalidVersion }
            } else {
                let policy = tag_lookup(record.as_str(), "p");
                match policy {
                    None => DmarcStatus::Invalid { record, issue: DmarcIssue::MissingPolicy },
                    Some(p) => {
                        let p_lower = lower_string(p.as_str());
                        if str_eq(p_lower.as_str(), "reject") {
                            DmarcStatus::Compliant { record, policy: DmarcPolicy::Reject }
                        } else if str_eq(p_lower.as_str(), "quarantine") {
                            DmarcStatus::Weak {
                                record,
                                policy: DmarcPolicy::Quarantine,
                                weakness: DmarcWeakness::QuarantinePolicy,
                            }
                        } else if str_eq(p_lower.as_str(), "none") {
                            DmarcStatus::Weak {
                                record,
                                policy: DmarcPolicy::NoPolicy,
                                weakness: DmarcWeakness::MonitoringPolicy,
                            }
                        } else {
                            DmarcStatus::Invalid {
                                record,
                                issue: DmarcIssue::UnknownPolicy { policy: p_lower },
                            }
                        }
                    },
                }
            }
        },
    };
    proof {
        assert(r@ =~~= spec_evaluate_dmarc(records.deep_view()));
    }
    r
}

} // verus!
