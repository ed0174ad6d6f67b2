use mailcheck_lib::mx::{LookupMx, normalize_domain};
use mailcheck_lib::{MxError, MxRecord, MxStatus, resolve_with};

struct StubResolver {
    records: Vec<MxRecord>,
    fail: bool,
}

impl LookupMx for StubResolver {
    fn lookup_mx(&self, domain: &str) -> Result<Vec<MxRecord>, String> {
        assert_eq!(domain, "example.com");
        if self.fail {
            Err("boom".to_string())
        } else {
            Ok(self.records.clone())
        }
    }
}

fn record(preference: u16, exchange: &str) -> MxRecord {
    MxRecord::new(preference, exchange.to_string())
}

#[test]
fn normalize_domain_rejects_empty() {
    let err = normalize_domain("").expect_err("empty domain should fail");
    assert!(matches!(err, MxError::EmptyDomain));
}

#[test]
fn resolve_with_sorts_and_dedups_records() {
    let stub = StubResolver {
        records: vec![
            record(20, "mx2.example.com"),
            record(10, "mx1.example.com"),
            record(10, "mx1.example.com"),
            record(30, "mx3.example.com"),
        ],
        fail: false,
    };

    let status = resolve_with(&stub, "example.com").expect("lookup succeeds");
    let records = match status {
        MxStatus::Records(records) => records,
        MxStatus::NoRecords => panic!("expected records"),
    };
    assert_eq!(records.len(), 3);
    assert_eq!(records[0].preference, 10);
    assert_eq!(records[0].exchange, "mx1.example.com");
    assert_eq!(records[2].preference, 30);
}

#[test]
fn resolve_with_handles_no_records() {
    let stub = StubResolver {
        records: Vec::new(),
        fail: false,
    };

    let status = resolve_with(&stub, "example.com").expect("lookup succeeds");
    assert!(matches!(status, MxStatus::NoRecords));
}

#[test]
fn normalize_exchange_trims_dot_and_lowercases() {
    let out = mailcheck_lib::normalize_exchange("Mail.EXAMPLE.com.".to_string());
    assert_eq!(out, "mail.example.com");
}

#[test]
fn resolve_with_reports_lookup_error() {
    let stub = StubResolver {
        records: Vec::new(),
        fail: true,
    };
    let err = resolve_with(&stub, "example.com").expect_err("lookup fails");
    match err {
        MxError::Lookup { message } => assert_eq!(message, "boom"),
        other => panic!("unexpected error: {:?}", other),
    }
}

#[test]
fn equal_preferences_order_by_exchange() {
    let stub = StubResolver {
        records: vec![
            record(10, "zeta.example.com"),
            record(10, "alpha.example.com"),
        ],
        fail: false,
    };
    let status = resolve_with(&stub, "example.com").expect("lookup succeeds");
    let records = status.records();
    assert_eq!(records[0].exchange, "alpha.example.com");
    assert_eq!(records[1].exchange, "zeta.example.com");
}
