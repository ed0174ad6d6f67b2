//! Status types of the DNS authentication evaluators, with their views.

use vstd::prelude::*;

verus! {

use vstd::string::StringExecFns;
use crate::strutil::{spec_trim, spec_trim_trailing_dots, spec_lower, trim_str,
    trim_trailing_dots, lower_chars, chars_to_string, contains_string};

/// SPF verdict for a domain.
#[derive(Debug, Clone, PartialEq, Eq)]
pub enum SpfStatus {
    Missing,
    MultipleRecords { records: Vec<String> },
    Invalid { record: String, issue: SpfIssue },
    Delegated { record: String, target: String },
    Weak { record: String, qualifier: SpfQualifier },
    Compliant { record: String, qualifier: SpfQualifier },
}

#[derive(Debug, Clone, PartialEq, Eq, Structural)]
pub enum SpfIssue {
    InvalidVersion,
    MissingAllMechanism,
}

#[derive(Debug, Clone, Copy, PartialEq, Eq, Structural)]
pub enum SpfQualifier {
    Fail,
    SoftFail,
    Neutral,
    Pass,
}

/// The view of an SPF verdict.
#[verifier::ext_equal]
pub enum SpfStatusView {
    Missing,
    MultipleRecords { records: Seq<Seq<char>> },
    Invalid { record: Seq<char>, issue: SpfIssue },
    Delegated { record: Seq<char>, target: Seq<char> },
    Weak { record: Seq<char>, qualifier: SpfQualifier },
    Compliant { record: Seq<char>, qualifier: SpfQualifier },
}

impl View for SpfStatus {
    type V = SpfStatusView;

    open spec fn view(&self) -> SpfStatusView {
        match self {
            SpfStatus::Missing => SpfStatusView::Missing,
            SpfStatus::MultipleRecords { records } => SpfStatusView::MultipleRecords {
                records: records.deep_view(),
            },
            SpfStatus::Invalid { record, issue } => SpfStatusView::Invalid {
                record: record@,
                issue: *issue,
            },
            SpfStatus::Delegated { record, target } => SpfStatusView::Delegated {
                record: record@,
                target: target@,
            },
            SpfStatus::Weak { record, qualifier } => SpfStatusView::Weak {
                record: record@,
                qualifier: *qualifier,
            },
            SpfStatus::Compliant { record, qualifier } => SpfStatusView::Compliant {
                record: record@,
                qualifier: *qualifier,
            },
        }
    }
}

/// DMARC verdict for a domain.
#[derive(Debug, Clone, PartialEq, Eq)]
pub enum DmarcStatus {
    Missing,
    MultipleRecords { records: Vec<String> },
    Invalid { record: String, issue: DmarcIssue },
    Weak { record: String, policy: DmarcPolicy, weakness: DmarcWeakness },
    Compliant { record: String, policy: DmarcPolicy },
}

#[derive(Debug, Clone, PartialEq, Eq)]
pub enum DmarcIssue {
    InvalidVersion,
    MissingPolicy,
    UnknownPolicy { policy: String },
}

#[derive(Debug, Clone, Copy, PartialEq, Eq, Structural)]
pub enum DmarcPolicy {
    NoPolicy,
    Quarantine,
    Reject,
}

#[derive(Debug, Clone, Copy, PartialEq, Eq, Structural)]
pub enum DmarcWeakness {
    MonitoringPolicy,
    QuarantinePolicy,
}

/// The view of a DMARC issue.
#[verifier::ext_equal]
pub enum DmarcIssueView {
    InvalidVersion,
    MissingPolicy,
    UnknownPolicy { policy: Seq<char> },
}

impl View for DmarcIssue {
    type V = DmarcIssueView;

    open spec fn view(&self) -> DmarcIssueView {
        match self {
            DmarcIssue::InvalidVersion => DmarcIssueView::InvalidVersion,
            DmarcIssue::MissingPolicy => DmarcIssueView::MissingPolicy,
            DmarcIssue::UnknownPolicy { policy } => DmarcIssueView::UnknownPolicy {
                policy: policy@,
            },
        }
    }
}

/// The view of a DMARC verdict.
#[verifier::ext_equal]
pub enum DmarcStatusView {
    Missing,
    MultipleRecords { records: Seq<Seq<char>> },
    Invalid { record: Seq<char>, issue: DmarcIssueView },
    Weak { record: Seq<char>, policy: DmarcPolicy, weakness: DmarcWeakness },
    Compliant { record: Seq<char>, policy: DmarcPolicy },
}

impl View for DmarcStatus {
    type V = DmarcStatusView;

    open spec fn view(&self) -> DmarcStatusView {
        match self {
            DmarcStatus::Missing => DmarcStatusView::Missing,
            DmarcStatus::MultipleRecords { records } => DmarcStatusView::MultipleRecords {
                records: records.deep_view(),
            },
            DmarcStatus::Invalid { record, issue } => DmarcStatusView::Invalid {
                record: record@,
                issue: issue@,
            },
            DmarcStatus::Weak { record, policy, weakness } => DmarcStatusView::Weak {
                record: record@,
                policy: *policy,
                weakness: *weakness,
            },
            DmarcStatus::Compliant { record, policy } => DmarcStatusView::Compliant {
                record: record@,
                policy: *policy,
            },
        }
    }
}

/// DKIM verdicts: the `_domainkey` policy record and per-selector records.
#[derive(Debug, Clone, PartialEq, Eq)]
pub struct DkimStatus {
    pub policy: DkimPolicyStatus,
    pub selectors: Vec<DkimSelectorStatus>,
}

#[derive(Debug, Clone, PartialEq, Eq)]
pub enum DkimPolicyStatus {
    NotRequested,
    Missing,
    Present { record: String, testing: bool },
    Invalid { record: String, issue: DkimIssue },
}

#[derive(Debug, Clone, PartialEq, Eq)]
pub enum DkimSelectorStatus {
    Missing { selector: String },
    Invalid { selector: String, records: Vec<String>, issue: DkimIssue },
    Weak { selector: String, record: String, weakness: DkimWeakness },
    Compliant { selector: String, record: String },
}

#[derive(Debug, Clone, Copy, PartialEq, Eq, Structural)]
pub enum DkimWeakness {
    TestingFlag,
}

#[derive(Debug, Clone, PartialEq, Eq, Structural)]
pub enum DkimIssue {
    InvalidVersion,
    MissingPublicKey,
    MultipleRecords { count: usize },
}

/// The view of a DKIM policy verdict.
#[verifier::ext_equal]
pub enum DkimPolicyStatusView {
    NotRequested,
    Missing,
    Present { record: Seq<char>, testing: bool },
    Invalid { record: Seq<char>, issue: DkimIssue },
}

impl View for DkimPolicyStatus {
    type V = DkimPolicyStatusView;

    open spec fn view(&self) -> DkimPolicyStatusView {
        match self {
            DkimPolicyStatus::NotRequested => DkimPolicyStatusView::NotRequested,
            DkimPolicyStatus::Missing => DkimPolicyStatusView::Missing,
            DkimPolicyStatus::Present { record, testing } => DkimPolicyStatusView::Present {
                record: record@,
                testing: *testing,
            },
            DkimPolicyStatus::Invalid { record, issue } => DkimPolicyStatusView::Invalid {
                record: record@,
                issue: *issue,
            },
        }
    }
}

/// The view of a DKIM selector verdict.
#[verifier::ext_equal]
pub enum DkimSelectorStatusView {
    Missing { selector: Seq<char> },
    Invalid { selector: Seq<char>, records: Seq<Seq<char>>, issue: DkimIssue },
    Weak { selector: Seq<char>, record: Seq<char>, weakness: DkimWeakness },
    Compliant { selector: Seq<char>, record: Seq<char> },
}

impl View for DkimSelectorStatus {
    type V = DkimSelectorStatusView;

    open spec fn view(&self) -> DkimSelectorStatusView {
        match self {
            DkimSelectorStatus::Missing { selector } => DkimSelectorStatusView::Missing {
                selector: selector@,
            },
            DkimSelectorStatus::Invalid { selector, records, issue } => {
                DkimSelectorStatusView::Invalid {
                    selector: selector@,
                    records: records.deep_view(),
                    issue: *issue,
                }
            },
            DkimSelectorStatus::Weak { selector, record, weakness } => {
                DkimSelectorStatusView::Weak {
                    selector: selector@,
                    record: record@,
                    weakness: *weakness,
                }
            },
            DkimSelectorStatus::Compliant { selector, record } => {
                DkimSelectorStatusView::Compliant { selector: selector@, record: record@ }
            },
        }
    }
}

impl DeepView for DkimSelectorStatus {
    type V = DkimSelectorStatusView;

    open spec fn deep_view(&self) -> DkimSelectorStatusView {
        self@
    }
}

/// The combined verdict for one domain.
#[derive(Debug, Clone, PartialEq, Eq)]
pub struct AuthStatus {
    pub domain: String,
    pub spf: SpfStatus,
    pub dmarc: DmarcStatus,
    pub dkim: DkimStatus,
}

/// Errors raised when checking DNS authentication records.
#[derive(Debug, Clone, PartialEq, Eq)]
pub enum AuthError {
    EmptyDomain,
    IdnaConversion,
    ResolverInit { message: String },
    TxtLookup { name: String, message: String },
    TxtDataUtf8 { name: String, message: String },
}

impl AuthError {
    /// A human-readable description of the error.
    pub fn message(&self) -> (r: String)
        ensures
            self is EmptyDomain ==> r@ == "domain is empty"@,
            self is IdnaConversion ==> r@ == "domain IDNA conversion failed"@,
    {
        match self {
            AuthError::EmptyDomain => String::from_str("domain is empty"),
            AuthError::IdnaConversion => String::from_str("domain IDNA conversion failed"),
            AuthError::ResolverInit { message } => {
                let mut m = String::from_str("resolver initialization failed: ");
                m.append(message.as_str());
                m
            },
            AuthError::TxtLookup { name, message } => {
                let mut m = String::from_str("TXT lookup failed for ");
                m.append(name.as_str());
                m.append(": ");
                m.append(message.as_str());
                m
            },
            AuthError::TxtDataUtf8 { name, message } => {
                let mut m = String::from_str("TXT record ");
                m.append(name.as_str());
                m.append(" contains invalid UTF-8 data: ");
                m.append(message.as_str());
                m
            },
        }
    }
}

/// A normalized selector: trimmed, trailing dots removed, lowercased; empty
/// input yields nothing.
pub open spec fn spec_normalize_selector(s: Seq<char>) -> Option<Seq<char>> {
    let t = spec_trim_trailing_dots(spec_trim(s));
    if t.len() == 0 {
        None
    } else {
        Some(spec_lower(t))
    }
}

/// How `with_dkim_selector` grows the selector list: a normalized, not yet
/// present selector is appended.
pub open spec fn spec_add_selector(sels: Seq<Seq<char>>, s: Seq<char>) -> Seq<Seq<char>> {
    match spec_normalize_selector(s) {
        None => sels,
        Some(n) => if sels.contains(n) {
            sels
        } else {
            sels.push(n)
        },
    }
}

/// The selector list after adding every element of `list` in order.
pub open spec fn spec_add_selectors(sels: Seq<Seq<char>>, list: Seq<Seq<char>>) -> Seq<Seq<char>>
    decreases list.len(),
{
    if list.len() == 0 {
        sels
    } else {
        spec_add_selector(spec_add_selectors(sels, list.drop_last()), list.last())
    }
}

/// Options of an authentication lookup: which DKIM selectors to query and
/// whether to query the `_domainkey` policy record.
#[derive(Debug, Clone, PartialEq, Eq)]
pub struct AuthLookupOptions {
    dkim_selectors: Vec<String>,
    check_dkim_policy: bool,
}

impl AuthLookupOptions {
    /// The normalized selectors held by the options.
    pub closed spec fn spec_selectors(&self) -> Seq<Seq<char>> {
        self.dkim_selectors.deep_view()
    }

    /// Whether the `_domainkey` policy record will be queried.
    pub closed spec fn spec_check_policy(&self) -> bool {
        self.check_dkim_policy
    }

    /// Fresh options: no selectors, policy record checked.
    pub fn new() -> (r: AuthLookupOptions)
        ensures
            r.spec_selectors() == Seq::<Seq<char>>::empty(),
            r.spec_check_policy(),
    {
        let r = AuthLookupOptions { dkim_selectors: Vec::new(), check_dkim_policy: true };
        proof {
            assert(r.dkim_selectors.deep_view() =~~= Seq::<Seq<char>>::empty());
        }
        r
    }

    /// Add one selector, normalized and deduplicated.
    pub fn with_dkim_selector(self, selector: &str) -> (r: AuthLookupOptions)
        ensures
            r.spec_selectors() == spec_add_selector(self.spec_selectors(), selector@),
            r.spec_check_policy() == self.spec_check_policy(),
    {
        let ghost orig = self.dkim_selectors.deep_view();
        let mut opts = self;
        let trimmed = trim_trailing_dots(&trim_str(selector));
        if trimmed.len() == 0 {
            return opts;
        }
        let lowered = chars_to_string(&lower_chars(&trimmed));
        if !contains_string(&opts.dkim_selectors, lowered.as_str()) {
            let ghost pre = opts.dkim_selectors.deep_view();
            opts.dkim_selectors.push(lowered);
            proof {
                assert(opts.dkim_selectors.deep_view() =~~= pre.push(
                    spec_lower(spec_trim_trailing_dots(spec_trim(selector@))),
                ));
            }
        }
        opts
    }

    /// Add several selectors in order, each normalized and deduplicated.
    pub fn with_dkim_selectors(self, selectors: &Vec<String>) -> (r: AuthLookupOptions)
        ensures
            r.spec_selectors() == spec_add_selectors(
                self.spec_selectors(),
                selectors.deep_view(),
            ),
            r.spec_check_policy() == self.spec_check_policy(),
    {
        let ghost base = self.spec_selectors();
        let mut opts = self;
        let mut i: usize = 0;
        proof {
            assert(selectors.deep_view().take(0) =~= Seq::<Seq<char>>::empty());
        }
        while i < selectors.len()
            invariant
                i <= selectors@.len(),
                selectors@.len() == selectors.deep_view().len(),
                opts.spec_selectors() == spec_add_selectors(
                    base,
                    selectors.deep_view().take(i as int),
                ),
                opts.spec_check_policy() == self.spec_check_policy(),
            decreases selectors@.len() - i,
        {
            opts = opts.with_dkim_selector(selectors[i].as_str());
            i = i + 1;
            proof {
                let t = selectors.deep_view().take(i as int);
                assert(t.drop_last() =~= selectors.deep_view().take(i - 1));
                assert(t.last() == selectors.deep_view()[i - 1]);
                assert(selectors.deep_view()[i - 1] == selectors@[i - 1]@);
            }
        }
        proof {
            assert(selectors.deep_view().take(selectors@.len() as int) =~= selectors.deep_view());
        }
        opts
    }

    /// Choose whether the `_domainkey` policy record is queried.
    pub fn check_policy_record(self, value: bool) -> (r: AuthLookupOptions)
        ensures
            r.spec_selectors() == self.spec_selectors(),
            r.spec_check_policy() == value,
    {
        let mut opts = self;
        opts.check_dkim_policy = value;
        opts
    }

    /// The selectors to query.
    pub fn dkim_selectors(&self) -> (r: &Vec<String>)
        ensures
            r.deep_view() == self.spec_selectors(),
    {
        &self.dkim_selectors
    }

    /// Whether the `_domainkey` policy record is queried.
    pub fn check_dkim_policy(&self) -> (r: bool)
        ensures
            r == self.spec_check_policy(),
    {
        self.check_dkim_policy
    }
}

impl Default for AuthLookupOptions {
    /// The default options: no selectors, policy record checked.
    fn default() -> (r: AuthLookupOptions)
        ensures
            r.spec_selectors() == Seq::<Seq<char>>::empty(),
            r.spec_check_policy(),
    {
        AuthLookupOptions::new()
    }
}

} // verus!
