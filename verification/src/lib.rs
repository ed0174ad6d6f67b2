//! Email deliverability inspection: syntactic validation, Unicode trust
//! analysis, SPF/DMARC/DKIM evaluation, and an SMTP probing state machine.

use vstd::prelude::*;

pub mod auth;
pub use auth::{AuthError, AuthLookupOptions, AuthStatus, DkimIssue, DkimPolicyStatus,
    DkimSelectorStatus, DkimStatus, DkimWeakness, DmarcIssue, DmarcPolicy, DmarcStatus,
    DmarcWeakness, SpfIssue, SpfQualifier, SpfStatus, check_with_resolver, evaluate_spf,
    evaluate_dmarc, dkim_policy_status, dkim_selector_status};
pub mod mx;
pub use mx::{LookupMx, MxError, MxRecord, MxStatus, arrange_records, normalize_exchange,
    resolve_with};
pub mod smtp;
pub use smtp::{AttemptOutcome, AttemptStage, Existence, HostProbe, MailboxCheckOptions,
    MailboxStatus, MailboxVerification, ProbeStep, ReplyAccumulator, ServerAttempt, SmtpEvent,
    SmtpProbeOptions, SmtpReply, VerificationMethod, aggregate_status, catchall_verdict,
    random_local_part};
pub mod strutil;
pub mod tables;
pub mod unicode;
pub mod validator;
pub use validator::{EmailError, NormalizedEmail, SpecCharacters, SpecClass, SpecFinding,
    SpecOptions, SpecSegment, ValidationMode, ValidationReport, analyze_spec_characters,
    join_spec_notes, normalize_email, normalize_email_with_spec, validate_email,
    validate_email_with_spec};

verus! {

/// True iff `c` is an ASCII code point.
pub open spec fn spec_is_ascii_char(c: char) -> bool {
    (c as u32) < 128
}

} // verus!
