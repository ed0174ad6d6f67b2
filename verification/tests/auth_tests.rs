use std::collections::HashMap;

use mailcheck_lib::auth::LookupTxt;
use mailcheck_lib::{
    AuthError, AuthLookupOptions, DkimIssue, DkimPolicyStatus, DkimSelectorStatus, DkimWeakness,
    DmarcIssue, DmarcStatus, SpfIssue, SpfQualifier, SpfStatus, check_with_resolver,
    dkim_policy_status, dkim_selector_status, evaluate_dmarc, evaluate_spf,
};

struct StubResolver {
    records: HashMap<String, Vec<String>>,
}

impl StubResolver {
    fn new() -> Self {
        Self {
            records: HashMap::new(),
        }
    }

    fn insert_records(&mut self, name: &str, records: Vec<&str>) {
        let key = normalize_name(name);
        let values = records.into_iter().map(|r| r.to_string()).collect();
        self.records.insert(key, values);
    }
}

impl LookupTxt for StubResolver {
    fn lookup_txt(&self, name: &str) -> Result<Vec<String>, AuthError> {
        let key = normalize_name(name);
        Ok(self.records.get(&key).cloned().unwrap_or_default())
    }
}

fn normalize_name(name: &str) -> String {
    name.trim().trim_end_matches('.').to_ascii_lowercase()
}

#[test]
fn spf_reports_missing_when_no_records() {
    let status = evaluate_spf(&Vec::new());
    assert!(matches!(status, SpfStatus::Missing));
}

#[test]
fn spf_softfail_considered_compliant() {
    let input = vec!["v=spf1 include:_spf.example.net ~all".to_string()];
    let status = evaluate_spf(&input);
    assert!(matches!(
        status,
        SpfStatus::Compliant {
            qualifier: SpfQualifier::SoftFail,
            ..
        }
    ));
}

#[test]
fn spf_redirect_marked_delegated() {
    let input = vec!["v=spf1 redirect=_spf.example.net".to_string()];
    let status = evaluate_spf(&input);
    match status {
        SpfStatus::Delegated { ref target, .. } => assert_eq!(target, "_spf.example.net"),
        other => panic!("expected delegated status, got {:?}", other),
    }
}

#[test]
fn dmarc_none_policy_flagged_weak() {
    let input = vec!["v=DMARC1; p=none; rua=mailto:d@example.com".to_string()];
    let status = evaluate_dmarc(&input);
    assert!(matches!(status, DmarcStatus::Weak { .. }));
}

#[test]
fn dkim_testing_selector_reported_weak() {
    let records = vec!["v=DKIM1; p=MIIB...; t=y".to_string()];
    let status = dkim_selector_status("default", &records);
    assert!(matches!(
        status,
        DkimSelectorStatus::Weak {
            weakness: DkimWeakness::TestingFlag,
            ..
        }
    ));
}

#[test]
fn check_with_resolver_combines_findings() {
    let mut stub = StubResolver::new();
    stub.insert_records("example.com", vec!["v=spf1 ip4:192.0.2.1 ~all"]);
    stub.insert_records(
        "_dmarc.example.com",
        vec!["v=DMARC1; p=none; rua=mailto:d@example.com"],
    );
    stub.insert_records("_domainkey.example.com", vec!["v=DKIM1; o=-"]);
    stub.insert_records(
        "default._domainkey.example.com",
        vec!["v=DKIM1; p=MIIBIjANBgkqhkiG9w0BAQEFAAOCAQ8A; t=y"],
    );

    let options = AuthLookupOptions::new().with_dkim_selector("default");
    let status = check_with_resolver(&stub, "example.com", &options).expect("resolution succeeds");

    match status.spf {
        SpfStatus::Compliant {
            qualifier: SpfQualifier::SoftFail,
            ..
        } => {}
        ref other => panic!("unexpected SPF status: {:?}", other),
    }

    match status.dmarc {
        DmarcStatus::Weak { .. } => {}
        ref other => panic!("unexpected DMARC status: {:?}", other),
    }

    match status.dkim.policy {
        DkimPolicyStatus::Present { testing: false, .. } => {}
        ref other => panic!("unexpected DKIM policy status: {:?}", other),
    }

    let selector = status
        .dkim
        .selectors
        .iter()
        .find(|entry| matches!(entry, DkimSelectorStatus::Weak { selector, .. } if selector == "default"))
        .unwrap_or_else(|| panic!("expected selector status"));

    if let DkimSelectorStatus::Weak { weakness, .. } = selector {
        assert_eq!(*weakness, DkimWeakness::TestingFlag);
    } else {
        panic!("expected weak selector, got {:?}", selector);
    }
}

#[test]
fn spf_wrong_version_token_is_invalid() {
    let input = vec!["v=spf1x include:x.example ~all".to_string()];
    let status = evaluate_spf(&input);
    assert!(matches!(
        status,
        SpfStatus::Invalid {
            issue: SpfIssue::InvalidVersion,
            ..
        }
    ));
}

#[test]
fn spf_without_all_or_redirect_is_invalid() {
    let input = vec!["v=spf1 include:x.example".to_string()];
    let status = evaluate_spf(&input);
    assert!(matches!(
        status,
        SpfStatus::Invalid {
            issue: SpfIssue::MissingAllMechanism,
            ..
        }
    ));
}

#[test]
fn spf_multiple_records_sorted_and_deduplicated() {
    let input = vec![
        "v=spf1 b ~all".to_string(),
        "v=spf1 a ~all".to_string(),
        "v=spf1 b ~all".to_string(),
    ];
    let status = evaluate_spf(&input);
    match status {
        SpfStatus::MultipleRecords { records } => {
            assert_eq!(records, vec!["v=spf1 a ~all", "v=spf1 b ~all"]);
        }
        other => panic!("expected multiple records, got {:?}", other),
    }
}

#[test]
fn dmarc_unknown_policy_is_invalid() {
    let input = vec!["v=DMARC1; p=block".to_string()];
    let status = evaluate_dmarc(&input);
    match status {
        DmarcStatus::Invalid {
            issue: DmarcIssue::UnknownPolicy { policy },
            ..
        } => assert_eq!(policy, "block"),
        other => panic!("expected unknown policy, got {:?}", other),
    }
}

#[test]
fn dmarc_missing_policy_is_invalid() {
    let input = vec!["v=DMARC1; rua=mailto:x@example.com".to_string()];
    let status = evaluate_dmarc(&input);
    assert!(matches!(
        status,
        DmarcStatus::Invalid {
            issue: DmarcIssue::MissingPolicy,
            ..
        }
    ));
}

#[test]
fn dmarc_reject_policy_is_compliant() {
    let input = vec!["v=DMARC1; p=reject".to_string()];
    let status = evaluate_dmarc(&input);
    assert!(matches!(status, DmarcStatus::Compliant { .. }));
}

#[test]
fn dkim_selector_without_key_is_invalid() {
    let records = vec!["v=DKIM1; p=".to_string()];
    let status = dkim_selector_status("default", &records);
    assert!(matches!(
        status,
        DkimSelectorStatus::Invalid {
            issue: DkimIssue::MissingPublicKey,
            ..
        }
    ));
}

#[test]
fn dkim_policy_multiple_records_invalid() {
    let records = vec!["v=DKIM1; o=-".to_string(), "v=DKIM1; o=~".to_string()];
    let status = dkim_policy_status(&records);
    match status {
        DkimPolicyStatus::Invalid {
            issue: DkimIssue::MultipleRecords { count },
            ..
        } => assert_eq!(count, 2),
        other => panic!("expected multiple records, got {:?}", other),
    }
}

#[test]
fn dkim_policy_wrong_version_invalid() {
    let records = vec!["v=DKIM2; o=-".to_string()];
    let status = dkim_policy_status(&records);
    assert!(matches!(
        status,
        DkimPolicyStatus::Invalid {
            issue: DkimIssue::InvalidVersion,
            ..
        }
    ));
}

#[test]
fn auth_normalize_domain_rejects_empty() {
    let err = mailcheck_lib::auth::normalize_domain("  ").expect_err("empty domain should fail");
    assert!(matches!(err, AuthError::EmptyDomain));
}

#[test]
fn fqdn_lowercases_and_trims_label() {
    let name = mailcheck_lib::auth::fqdn(" _DMARC. ", "example.com");
    assert_eq!(name, "_dmarc.example.com");
}

#[test]
fn later_tags_override_earlier_ones() {
    let input = vec!["v=DMARC1; p=none; p=reject".to_string()];
    let status = evaluate_dmarc(&input);
    assert!(matches!(status, DmarcStatus::Compliant { .. }));
}

#[test]
fn selector_options_normalize_and_deduplicate() {
    let options = AuthLookupOptions::new()
        .with_dkim_selector(" Default. ")
        .with_dkim_selector("default")
        .with_dkim_selector("   ");
    let selectors = options.dkim_selectors();
    assert_eq!(selectors.len(), 1);
    assert_eq!(selectors[0], "default");
}

#[test]
fn duplicate_spf_records_collapse_to_one() {
    let input = vec![
        "v=spf1 include:_spf.example.net ~all".to_string(),
        "v=spf1 include:_spf.example.net ~all".to_string(),
    ];
    let status = evaluate_spf(&input);
    assert!(matches!(
        status,
        SpfStatus::Compliant {
            qualifier: SpfQualifier::SoftFail,
            ..
        }
    ));
}

#[test]
fn duplicate_dmarc_records_collapse_to_one() {
    let input = vec![
        "v=DMARC1; p=reject".to_string(),
        "v=DMARC1; p=reject".to_string(),
    ];
    let status = evaluate_dmarc(&input);
    assert!(matches!(status, DmarcStatus::Compliant { .. }));
}

#[test]
fn duplicate_dkim_records_collapse_to_one() {
    let records = vec!["v=DKIM1; p=x".to_string(), "v=DKIM1; p=x".to_string()];
    let status = dkim_policy_status(&records);
    assert!(matches!(status, DkimPolicyStatus::Present { .. }));
}

#[test]
fn multiple_dkim_records_carry_first_by_sort_order() {
    let records = vec!["v=DKIM1; o=~".to_string(), "v=DKIM1; o=-".to_string()];
    let status = dkim_policy_status(&records);
    match status {
        DkimPolicyStatus::Invalid {
            record,
            issue: DkimIssue::MultipleRecords { count },
        } => {
            assert_eq!(count, 2);
            assert_eq!(record, "v=DKIM1; o=-");
        }
        other => panic!("expected multiple records, got {:?}", other),
    }
}

#[test]
fn plural_selector_builder_folds_each_selector() {
    let list = vec![
        " Default. ".to_string(),
        "default".to_string(),
        "Mail".to_string(),
        String::new(),
    ];
    let options = AuthLookupOptions::new().with_dkim_selectors(&list);
    let selectors = options.dkim_selectors();
    assert_eq!(selectors.len(), 2);
    assert_eq!(selectors[0], "default");
    assert_eq!(selectors[1], "mail");
}
