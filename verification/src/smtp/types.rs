//! The typed attempt log of a deliverability probe and the aggregate verdict.

use vstd::prelude::*;

verus! {

use vstd::string::StringExecFns;
use crate::strutil::{clone_opt_string, clone_string_vec};
use super::reply::{SmtpReply, SmtpReplyView};

/// The stage of a session an event belongs to.
#[derive(Debug, Clone, Copy, PartialEq, Eq, Structural)]
pub enum AttemptStage {
    Connect,
    Greeting,
    Ehlo,
    StartTls,
    MailFrom,
    Vrfy,
    RcptTo,
    Rset,
    Quit,
}

/// How an address was checked.
#[derive(Debug, Clone, Copy, PartialEq, Eq, Structural)]
pub enum VerificationMethod {
    Vrfy,
    RcptTo,
}

/// A recorded transcript event.
#[derive(Debug, Clone, PartialEq, Eq)]
pub enum SmtpEvent {
    Sent { stage: AttemptStage, command: String },
    Received { stage: AttemptStage, reply: SmtpReply },
    Error { stage: AttemptStage, message: String },
}

/// The view of an event.
#[verifier::ext_equal]
pub enum SmtpEventView {
    Sent { stage: AttemptStage, command: Seq<char> },
    Received { stage: AttemptStage, reply: SmtpReplyView },
    Error { stage: AttemptStage, message: Seq<char> },
}

impl View for SmtpEvent {
    type V = SmtpEventView;

    open spec fn view(&self) -> SmtpEventView {
        match self {
            SmtpEvent::Sent { stage, command } => SmtpEventView::Sent {
                stage: *stage,
                command: command@,
            },
            SmtpEvent::Received { stage, reply } => SmtpEventView::Received {
                stage: *stage,
                reply: reply@,
            },
            SmtpEvent::Error { stage, message } => SmtpEventView::Error {
                stage: *stage,
                message: message@,
            },
        }
    }
}

impl DeepView for SmtpEvent {
    type V = SmtpEventView;

    open spec fn deep_view(&self) -> SmtpEventView {
        self@
    }
}

/// The outcome of one server interrogation.
#[derive(Debug, Clone, PartialEq, Eq)]
pub enum AttemptOutcome {
    Accepted { method: VerificationMethod, reply: SmtpReply },
    Rejected { method: VerificationMethod, reply: SmtpReply },
    TemporaryFailure { method: VerificationMethod, reply: SmtpReply },
    Unreachable { message: String },
    ProtocolError { message: String },
    NoVerification { message: String },
}

/// The view of an outcome.
#[verifier::ext_equal]
pub enum AttemptOutcomeView {
    Accepted { method: VerificationMethod, reply: SmtpReplyView },
    Rejected { method: VerificationMethod, reply: SmtpReplyView },
    TemporaryFailure { method: VerificationMethod, reply: SmtpReplyView },
    Unreachable { message: Seq<char> },
    ProtocolError { message: Seq<char> },
    NoVerification { message: Seq<char> },
}

impl View for AttemptOutcome {
    type V = AttemptOutcomeView;

    open spec fn view(&self) -> AttemptOutcomeView {
        match self {
            AttemptOutcome::Accepted { method, reply } => AttemptOutcomeView::Accepted {
                method: *method,
                reply: reply@,
            },
            AttemptOutcome::Rejected { method, reply } => AttemptOutcomeView::Rejected {
                method: *method,
                reply: reply@,
            },
            AttemptOutcome::TemporaryFailure { method, reply } => {
                AttemptOutcomeView::TemporaryFailure { method: *method, reply: reply@ }
            },
            AttemptOutcome::Unreachable { message } => AttemptOutcomeView::Unreachable {
                message: message@,
            },
            AttemptOutcome::ProtocolError { message } => AttemptOutcomeView::ProtocolError {
                message: message@,
            },
            AttemptOutcome::NoVerification { message } => AttemptOutcomeView::NoVerification {
                message: message@,
            },
        }
    }
}

impl AttemptOutcome {
    /// Whether the outcome is an acceptance.
    pub fn is_success(&self) -> (r: bool)
        ensures
            r == (self@ is Accepted),
    {
        match self {
            AttemptOutcome::Accepted { .. } => true,
            _ => false,
        }
    }

    /// The reply carried by a classified outcome, if any.
    pub fn as_reply(&self) -> (r: Option<&SmtpReply>)
        ensures
            match r {
                Some(reply) => (self@ is Accepted && reply@ == self@->Accepted_reply) || (self@
                    is Rejected && reply@ == self@->Rejected_reply) || (self@ is TemporaryFailure
                    && reply@ == self@->TemporaryFailure_reply),
                None => self@ is Unreachable || self@ is ProtocolError || self@ is NoVerification,
            },
    {
        match self {
            AttemptOutcome::Accepted { reply, .. } => Some(reply),
            AttemptOutcome::Rejected { reply, .. } => Some(reply),
            AttemptOutcome::TemporaryFailure { reply, .. } => Some(reply),
            _ => None,
        }
    }
}

/// The interrogation record of one MX host.
#[derive(Debug, Clone, PartialEq, Eq)]
pub struct ServerAttempt {
    pub exchange: String,
    pub address: Option<String>,
    pub events: Vec<SmtpEvent>,
    pub outcome: AttemptOutcome,
}

impl ServerAttempt {
    /// A fresh record for `exchange`: nothing attempted yet.
    pub fn new(exchange: String) -> (r: ServerAttempt)
        ensures
            r.exchange@ == exchange@,
            r.address is None,
            r.events.deep_view() == Seq::<SmtpEventView>::empty(),
            r.outcome@ matches AttemptOutcomeView::NoVerification { message } && message
                == "verification not attempted"@,
    {
        let r = ServerAttempt {
            exchange,
            address: None,
            events: Vec::new(),
            outcome: AttemptOutcome::NoVerification {
                message: String::from_str("verification not attempted"),
            },
        };
        proof {
            assert(r.events.deep_view() =~~= Seq::<SmtpEventView>::empty());
        }
        r
    }
}

/// The aggregate deliverability verdict.
#[derive(Debug, Clone, PartialEq, Eq)]
pub enum MailboxStatus {
    Deliverable,
    Rejected { code: u16, message: String },
    TemporaryFailure { code: u16, message: String },
    NoMailServer,
    Unreachable,
    Unverified,
}

/// The view of the aggregate verdict.
#[verifier::ext_equal]
pub enum MailboxStatusView {
    Deliverable,
    Rejected { code: u16, message: Seq<char> },
    TemporaryFailure { code: u16, message: Seq<char> },
    NoMailServer,
    Unreachable,
    Unverified,
}

impl View for MailboxStatus {
    type V = MailboxStatusView;

    open spec fn view(&self) -> MailboxStatusView {
        match self {
            MailboxStatus::Deliverable => MailboxStatusView::Deliverable,
            MailboxStatus::Rejected { code, message } => MailboxStatusView::Rejected {
                code: *code,
                message: message@,
            },
            MailboxStatus::TemporaryFailure { code, message } => {
                MailboxStatusView::TemporaryFailure { code: *code, message: message@ }
            },
            MailboxStatus::NoMailServer => MailboxStatusView::NoMailServer,
            MailboxStatus::Unreachable => MailboxStatusView::Unreachable,
            MailboxStatus::Unverified => MailboxStatusView::Unverified,
        }
    }
}

/// The full report of a deliverability probe.
#[derive(Debug, Clone, PartialEq, Eq)]
pub struct MailboxVerification {
    pub email: String,
    pub ascii_domain: String,
    pub status: MailboxStatus,
    pub attempts: Vec<ServerAttempt>,
}

/// Options of a deliverability probe.
#[derive(Debug, Clone)]
pub struct MailboxCheckOptions {
    pub port: u16,
    pub validation_mode: crate::validator::ValidationMode,
    pub helo_domain: Option<String>,
    pub envelope_sender: Option<String>,
    pub connect_timeout_ms: u64,
    pub command_timeout_ms: u64,
    pub max_servers: usize,
    /// Kept for configuration compatibility. The probing pipeline relies on
    /// `RCPT TO` alone and never issues `VRFY`, so this flag is not
    /// consulted.
    pub use_vrfy: bool,
}

impl Default for MailboxCheckOptions {
    /// The default probe: port 25, strict validation, five-second timeouts,
    /// at most three servers, VRFY attempted first.
    fn default() -> (r: MailboxCheckOptions)
        ensures
            r.port == 25,
            r.validation_mode is Strict,
            r.helo_domain is None,
            r.envelope_sender is None,
            r.connect_timeout_ms == 5000,
            r.command_timeout_ms == 5000,
            r.max_servers == 3,
            r.use_vrfy,
    {
        MailboxCheckOptions {
            port: 25,
            validation_mode: crate::validator::ValidationMode::Strict,
            helo_domain: None,
            envelope_sender: None,
            connect_timeout_ms: 5000,
            command_timeout_ms: 5000,
            max_servers: 3,
            use_vrfy: true,
        }
    }
}

impl MailboxCheckOptions {
    /// The name sent with EHLO: the configured one when non-empty, else the
    /// ASCII domain of the target.
    pub fn helo_domain(&self, ascii_domain: &str) -> (r: String)
        ensures
            r@ == match self.helo_domain {
                Some(h) => if h@.len() > 0 {
                    h@
                } else {
                    ascii_domain@
                },
                None => ascii_domain@,
            },
    {
        match &self.helo_domain {
            Some(h) => {
                if !h.as_str().is_empty() {
                    h.clone()
                } else {
                    let mut out = String::new();
                    out.append(ascii_domain);
                    out
                }
            },
            None => {
                let mut out = String::new();
                out.append(ascii_domain);
                out
            },
        }
    }

    /// The envelope sender of MAIL FROM: the configured one when non-empty,
    /// else `postmaster@` the ASCII domain.
    pub fn envelope_sender(&self, ascii_domain: &str) -> (r: String)
        ensures
            r@ == match self.envelope_sender {
                Some(s) => if s@.len() > 0 {
                    s@
                } else {
                    "postmaster@"@ + ascii_domain@
                },
                None => "postmaster@"@ + ascii_domain@,
            },
    {
        match &self.envelope_sender {
            Some(s) => {
                if !s.as_str().is_empty() {
                    s.clone()
                } else {
                    let mut out = String::from_str("postmaster@");
                    out.append(ascii_domain);
                    out
                }
            },
            None => {
                let mut out = String::from_str("postmaster@");
                out.append(ascii_domain);
                out
            },
        }
    }
}

// ---------------------------------------------------------------------------
// Aggregation
// ---------------------------------------------------------------------------

/// Whether some attempt was accepted.
pub open spec fn spec_any_accepted(atts: Seq<ServerAttempt>) -> bool {
    exists|i: int| 0 <= i < atts.len() && (#[trigger] atts[i].outcome)@ is Accepted
}

/// The index of the first attempt with a `Rejected` outcome.
pub open spec fn spec_first_rejected(atts: Seq<ServerAttempt>, i: int) -> Option<int>
    decreases atts.len() - i,
{
    if i < 0 || i >= atts.len() {
        None
    } else if atts[i].outcome@ is Rejected {
        Some(i)
    } else {
        spec_first_rejected(atts, i + 1)
    }
}

/// The index of the first attempt with a `TemporaryFailure` outcome.
pub open spec fn spec_first_tempfail(atts: Seq<ServerAttempt>, i: int) -> Option<int>
    decreases atts.len() - i,
{
    if i < 0 || i >= atts.len() {
        None
    } else if atts[i].outcome@ is TemporaryFailure {
        Some(i)
    } else {
        spec_first_tempfail(atts, i + 1)
    }
}

/// Whether every attempt was unreachable.
pub open spec fn spec_all_unreachable(atts: Seq<ServerAttempt>) -> bool {
    forall|i: int| 0 <= i < atts.len() ==> (#[trigger] atts[i].outcome)@ is Unreachable
}

/// The verdict precedence over the attempts: an acceptance means
/// `Deliverable`; else the first rejection, else the first temporary
/// failure, carries its reply; else all-unreachable means `Unreachable`;
/// anything else is `Unverified`.
pub open spec fn spec_aggregate(atts: Seq<ServerAttempt>) -> MailboxStatusView {
    if spec_any_accepted(atts) {
        MailboxStatusView::Deliverable
    } else {
        match spec_first_rejected(atts, 0) {
            Some(i) => MailboxStatusView::Rejected {
                code: atts[i].outcome@->Rejected_reply.code,
                message: atts[i].outcome@->Rejected_reply.message,
            },
            None => match spec_first_tempfail(atts, 0) {
                Some(i) => MailboxStatusView::TemporaryFailure {
                    code: atts[i].outcome@->TemporaryFailure_reply.code,
                    message: atts[i].outcome@->TemporaryFailure_reply.message,
                },
                None => if spec_all_unreachable(atts) {
                    MailboxStatusView::Unreachable
                } else {
                    MailboxStatusView::Unverified
                },
            },
        }
    }
}

/// Aggregate the per-host outcomes into one deliverability verdict.
pub fn aggregate_status(attempts: &Vec<ServerAttempt>) -> (r: MailboxStatus)
    ensures
        r@ == spec_aggregate(attempts@),
{
    let mut i: usize = 0;
    while i < attempts.len()
        invariant
            i <= attempts@.len(),
            forall|k: int| 0 <= k < i ==> !((#[trigger] attempts@[k].outcome)@ is Accepted),
        decreases attempts@.len() - i,
    {
        if attempts[i].outcome.is_success() {
            return MailboxStatus::Deliverable;
        }
        i = i + 1;
    }
    let mut j: usize = 0;
    while j < attempts.len()
        invariant
            j <= attempts@.len(),
            forall|k: int| 0 <= k < attempts@.len() ==> !((#[trigger] attempts@[k].outcome)@
                is Accepted),
            spec_first_rejected(attempts@, 0) == spec_first_rejected(attempts@, j as int),
        decreases attempts@.len() - j,
    {
        if let AttemptOutcome::Rejected { reply, .. } = &attempts[j].outcome {
            return MailboxStatus::Rejected { code: reply.code, message: reply.message.clone() };
        }
        j = j + 1;
    }
    let mut k: usize = 0;
    while k < attempts.len()
        invariant
            k <= attempts@.len(),
            forall|m: int| 0 <= m < attempts@.len() ==> !((#[trigger] attempts@[m].outcome)@
                is Accepted),
            spec_first_rejected(attempts@, 0) is None,
            spec_first_tempfail(attempts@, 0) == spec_first_tempfail(attempts@, k as int),
        decreases attempts@.len() - k,
    {
        if let AttemptOutcome::TemporaryFailure { reply, .. } = &attempts[k].outcome {
            return MailboxStatus::TemporaryFailure {
                code: reply.code,
                message: reply.message.clone(),
            };
        }
        k = k + 1;
    }
    let mut m: usize = 0;
    while m < attempts.len()
        invariant
            m <= attempts@.len(),
            forall|n: int| 0 <= n < attempts@.len() ==> !((#[trigger] attempts@[n].outcome)@
                is Accepted),
            spec_first_rejected(attempts@, 0) is None,
            spec_first_tempfail(attempts@, 0) is None,
            forall|n: int| 0 <= n < m ==> (#[trigger] attempts@[n].outcome)@ is Unreachable,
        decreases attempts@.len() - m,
    {
        let unreachable = match &attempts[m].outcome {
            AttemptOutcome::Unreachable { .. } => true,
            _ => false,
        };
        if !unreachable {
            return MailboxStatus::Unverified;
        }
        m = m + 1;
    }
    MailboxStatus::Unreachable
}

} // verus!
