//! DNS authentication inspection: SPF, DMARC and DKIM record evaluation over
//! a pluggable TXT lookup capability.

pub mod dkim;
pub mod dmarc;
pub mod spf;
pub mod tags;
pub mod types;

pub use dkim::{dkim_policy_status, dkim_selector_status, policy_not_requested, assemble_status};
pub use dmarc::evaluate_dmarc;
pub use spf::evaluate_spf;
pub use types::{AuthError, AuthLookupOptions, AuthStatus, DkimIssue, DkimPolicyStatus,
    DkimSelectorStatus, DkimStatus, DkimWeakness, DmarcIssue, DmarcPolicy, DmarcStatus,
    DmarcWeakness, SpfIssue, SpfQualifier, SpfStatus};

use vstd::prelude::*;

verus! {

use vstd::string::StringExecFns;
use crate::strutil::{spec_trim, spec_trim_trailing_dots, spec_lower, trim_str, trim_trailing_dots,
    lower_chars, chars_to_string, push_chars};
use crate::validator::domain::{idna_of, domain_to_ascii, spec_hostname_chars,
    spec_no_punycode_label};

/// The TXT lookup capability the evaluators consume, so that callers can
/// bind the system resolver or a stub.
pub trait LookupTxt {
    /// The TXT records at `name`, one string per record, with missing names
    /// yielding an empty list.
    fn lookup_txt(&self, name: &str) -> Result<Vec<String>, AuthError>;
}

/// Trim the domain and convert it to its IDNA ASCII form. A plain ASCII
/// host name comes back as its lowercased self.
pub fn normalize_domain(domain: &str) -> (r: Result<String, AuthError>)
    ensures
        spec_trim(domain@).len() == 0 ==> r matches Err(AuthError::EmptyDomain),
        spec_trim(domain@).len() > 0 ==> match r {
            Ok(a) => idna_of(spec_trim(domain@)) == Some(a@) && (spec_hostname_chars(
                spec_trim(domain@),
            ) && spec_no_punycode_label(spec_trim(domain@)) ==> a@ == spec_lower(
                spec_trim(domain@),
            )),
            Err(e) => e is IdnaConversion && idna_of(spec_trim(domain@)) is None,
        },
{
    let trimmed_chars = trim_str(domain);
    if trimmed_chars.len() == 0 {
        return Err(AuthError::EmptyDomain);
    }
    let trimmed = chars_to_string(&trimmed_chars);
    match domain_to_ascii(trimmed.as_str()) {
        Some(a) => Ok(a),
        None => Err(AuthError::IdnaConversion),
    }
}

/// The fully qualified name queried for `label` under `domain`: the label is
/// trimmed, stripped of trailing dots and lowercased; an empty label yields
/// the domain itself.
pub open spec fn spec_fqdn(label: Seq<char>, domain: Seq<char>) -> Seq<char> {
    let t = spec_trim_trailing_dots(spec_trim(label));
    if t.len() == 0 {
        domain
    } else {
        spec_lower(t) + seq!['.'] + domain
    }
}

/// Build the fully qualified name for a lookup.
pub fn fqdn(label: &str, domain: &str) -> (r: String)
    ensures
        r@ == spec_fqdn(label@, domain@),
{
    let trimmed = trim_trailing_dots(&trim_str(label));
    if trimmed.len() == 0 {
        let mut out = String::new();
        out.append(domain);
        proof {
            assert(out@ =~= spec_fqdn(label@, domain@));
        }
        return out;
    }
    let lowered = lower_chars(&trimmed);
    let mut out = String::new();
    push_chars(&mut out, &lowered);
    out.push('.');
    out.append(domain);
    proof {
        assert(out@ =~= spec_fqdn(label@, domain@));
    }
    out
}

/// Evaluate SPF, DMARC and the requested DKIM records of `ascii_domain`
/// through the given resolver. Whatever the lookups return, the verdict
/// carries the queried domain, answers the policy record exactly when it was
/// requested, and reports one status per requested selector, in order.
pub fn check_with_resolver<R: LookupTxt>(
    resolver: &R,
    ascii_domain: &str,
    options: &AuthLookupOptions,
) -> (r: Result<AuthStatus, AuthError>)
    ensures
        r matches Ok(st) ==> {
            &&& st.domain@ == ascii_domain@
            &&& (st.dkim.policy@ is NotRequested <==> !options.spec_check_policy())
            &&& st.dkim.selectors.deep_view().len() == options.spec_selectors().len()
            &&& forall|i: int|
                0 <= i < st.dkim.selectors.deep_view().len() ==> dkim::spec_selector_name(
                    #[trigger] st.dkim.selectors.deep_view()[i],
                ) == options.spec_selectors()[i]
        },
{
    let spf_records = match resolver.lookup_txt(ascii_domain) {
        Ok(rs) => rs,
        Err(e) => {
            return Err(e);
        },
    };
    let spf_status = evaluate_spf(&spf_records);

    let dmarc_name = fqdn("_dmarc", ascii_domain);
    let dmarc_records = match resolver.lookup_txt(dmarc_name.as_str()) {
        Ok(rs) => rs,
        Err(e) => {
            return Err(e);
        },
    };
    let dmarc_status = evaluate_dmarc(&dmarc_records);

    let policy_status = if options.check_dkim_policy() {
        let policy_name = fqdn("_domainkey", ascii_domain);
        let policy_records = match resolver.lookup_txt(policy_name.as_str()) {
            Ok(rs) => rs,
            Err(e) => {
                return Err(e);
            },
        };
        dkim_policy_status(&policy_records)
    } else {
        policy_not_requested()
    };

    let selectors = options.dkim_selectors();
    let mut selector_statuses: Vec<DkimSelectorStatus> = Vec::new();
    let mut i: usize = 0;
    proof {
        assert(selector_statuses.deep_view() =~~= Seq::<types::DkimSelectorStatusView>::empty());
    }
    while i < selectors.len()
        invariant
            i <= selectors@.len(),
            selectors@.len() == selectors.deep_view().len(),
            selector_statuses.deep_view().len() == i,
            forall|k: int|
                0 <= k < i ==> dkim::spec_selector_name(
                    #[trigger] selector_statuses.deep_view()[k],
                ) == selectors.deep_view()[k],
        decreases selectors@.len() - i,
    {
        let selector = &selectors[i];
        let mut selector_name = String::new();
        selector_name.append(selector.as_str());
        selector_name.append("._domainkey");
        let lookup_name = fqdn(selector_name.as_str(), ascii_domain);
        let selector_records = match resolver.lookup_txt(lookup_name.as_str()) {
            Ok(rs) => rs,
            Err(e) => {
                return Err(e);
            },
        };
        let status = dkim_selector_status(selector.as_str(), &selector_records);
        let ghost spre = selector_statuses.deep_view();
        let ghost status_view = status@;
        selector_statuses.push(status);
        i = i + 1;
        proof {
            assert(selectors.deep_view()[i - 1] == selectors@[i - 1]@);
            assert(selector_statuses.deep_view() =~~= spre.push(status_view));
            dkim::lemma_selector_status_name_pub(selectors@[i - 1]@,
                selector_records.deep_view());
        }
    }

    let dkim_status = assemble_status(policy_status, selector_statuses);
    let mut domain_owned = String::new();
    domain_owned.append(ascii_domain);
    Ok(AuthStatus { domain: domain_owned, spf: spf_status, dmarc: dmarc_status, dkim: dkim_status })
}

} // verus!
