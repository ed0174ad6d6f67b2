//! The per-host SMTP probing state machine: EHLO, optional STARTTLS, MAIL
//! FROM, RCPT for the target, then random-alias probes for catch-all
//! detection. The machine decides; the caller performs the socket work.

use vstd::prelude::*;

use rand::Rng;

verus! {

use vstd::string::StringExecFns;
use crate::strutil::{spec_dec, spec_is_ascii_alphanumeric, push_dec_u64, str_eq, push_chars,
    str_to_chars};
use super::reply::{SmtpReply, SmtpReplyView, spec_reply_wf};
use super::types::{AttemptOutcome, AttemptOutcomeView, AttemptStage, VerificationMethod};

// ---------------------------------------------------------------------------
// Existence verdicts
// ---------------------------------------------------------------------------

/// Classification of the observed SMTP behaviour for a mailbox.
#[derive(Debug, Clone, PartialEq, Eq)]
pub enum Existence {
    Exists,
    DoesNotExist,
    CatchAll,
    Indeterminate(String),
}

/// The view of a verdict.
#[verifier::ext_equal]
pub enum ExistenceView {
    Exists,
    DoesNotExist,
    CatchAll,
    Indeterminate(Seq<char>),
}

impl View for Existence {
    type V = ExistenceView;

    open spec fn view(&self) -> ExistenceView {
        match self {
            Existence::Exists => ExistenceView::Exists,
            Existence::DoesNotExist => ExistenceView::DoesNotExist,
            Existence::CatchAll => ExistenceView::CatchAll,
            Existence::Indeterminate(m) => ExistenceView::Indeterminate(m@),
        }
    }
}

impl Existence {
    /// Whether the verdict settles the question.
    pub fn is_conclusive(&self) -> (r: bool)
        ensures
            r == (self@ is Exists || self@ is DoesNotExist),
    {
        match self {
            Existence::Exists => true,
            Existence::DoesNotExist => true,
            _ => false,
        }
    }
}

/// A permanent no-such-mailbox code: 550, 551 or 553.
pub open spec fn spec_permanent_no_mailbox(code: u16) -> bool {
    code == 550 || code == 551 || code == 553
}

/// Test for a permanent no-such-mailbox reply.
pub fn is_permanent_no_mailbox(reply: &SmtpReply) -> (r: bool)
    ensures
        r == spec_permanent_no_mailbox(reply.code),
{
    reply.code == 550 || reply.code == 551 || reply.code == 553
}

/// How the target RCPT reply classifies.
#[derive(Debug, Clone, PartialEq, Eq)]
pub enum TargetExistence {
    Accepted,
    DoesNotExist,
    Indeterminate(String),
}

pub open spec fn spec_msg_521() -> Seq<char> {
    "521 host does not accept mail"@
}

pub open spec fn spec_msg_tempfail(code: u16) -> Seq<char> {
    "temporary failure "@ + spec_dec(code as nat)
}

pub open spec fn spec_msg_unexpected(code: u16) -> Seq<char> {
    "unexpected response "@ + spec_dec(code as nat)
}

/// Classify the reply to the target RCPT: 2xx accepts; 550, 551 and 553 deny
/// the mailbox; 521 and 4xx leave the question open with their reasons; any
/// other code is unexpected.
pub fn classify_target(reply: &SmtpReply) -> (r: TargetExistence)
    ensures
        200 <= reply.code < 300 ==> r is Accepted,
        spec_permanent_no_mailbox(reply.code) ==> r is DoesNotExist,
        !(200 <= reply.code < 300) && !spec_permanent_no_mailbox(reply.code) ==> (r matches
            TargetExistence::Indeterminate(m) && m@ == (if reply.code == 521 {
            spec_msg_521()
        } else if 400 <= reply.code < 500 {
            spec_msg_tempfail(reply.code)
        } else {
            spec_msg_unexpected(reply.code)
        })),
{
    if reply.is_positive_completion() {
        return TargetExistence::Accepted;
    }
    if is_permanent_no_mailbox(reply) {
        return TargetExistence::DoesNotExist;
    }
    if reply.code == 521 {
        return TargetExistence::Indeterminate(String::from_str("521 host does not accept mail"));
    }
    if reply.is_transient_failure() {
        let mut m = String::from_str("temporary failure ");
        push_dec_u64(&mut m, reply.code as u64);
        return TargetExistence::Indeterminate(m);
    }
    let mut m = String::from_str("unexpected response ");
    push_dec_u64(&mut m, reply.code as u64);
    TargetExistence::Indeterminate(m)
}

/// The verdict the probe counters settle on.
pub open spec fn spec_catchall(accepted: int, rejected: int, tempfail: int) -> ExistenceView {
    if accepted > 0 {
        ExistenceView::CatchAll
    } else if rejected > 0 && tempfail == 0 {
        ExistenceView::Exists
    } else if tempfail > 0 {
        ExistenceView::Indeterminate("temporary failure on catch-all probes"@)
    } else {
        ExistenceView::Indeterminate("ambiguous catch-all probes"@)
    }
}

/// The verdict of the catch-all probes: any accepted alias means a catch-all
/// host; rejections with no temporary failures confirm the target; temporary
/// failures, or no signal at all, leave the question open.
pub fn catchall_verdict(accepted: usize, rejected: usize, tempfail: usize) -> (r: Existence)
    ensures
        r@ == spec_catchall(accepted as int, rejected as int, tempfail as int),
{
    if accepted > 0 {
        Existence::CatchAll
    } else if rejected > 0 && tempfail == 0 {
        Existence::Exists
    } else if tempfail > 0 {
        Existence::Indeterminate(String::from_str("temporary failure on catch-all probes"))
    } else {
        Existence::Indeterminate(String::from_str("ambiguous catch-all probes"))
    }
}

// ---------------------------------------------------------------------------
// Probe options and random aliases
// ---------------------------------------------------------------------------

/// Configuration knobs of an existence probe.
#[derive(Debug, Clone, PartialEq, Eq)]
pub struct SmtpProbeOptions {
    pub helo_domain: String,
    pub mail_from: String,
    pub starttls_required: bool,
    pub timeout_ms: u64,
    pub max_mx: usize,
    pub catchall_probes: u8,
    pub ipv6: bool,
}

impl Default for SmtpProbeOptions {
    /// The default probe: EHLO as `localhost`, empty sender, no STARTTLS
    /// requirement, five-second timeout, three MX hosts, one alias probe.
    fn default() -> (r: SmtpProbeOptions)
        ensures
            r.helo_domain@ == "localhost"@,
            r.mail_from@.len() == 0,
            !r.starttls_required,
            r.timeout_ms == 5000,
            r.max_mx == 3,
            r.catchall_probes == 1,
            !r.ipv6,
    {
        SmtpProbeOptions {
            helo_domain: String::from_str("localhost"),
            mail_from: String::new(),
            starttls_required: false,
            timeout_ms: 5000,
            max_mx: 3,
            catchall_probes: 1,
            ipv6: false,
        }
    }
}

impl SmtpProbeOptions {
    /// The timeout in milliseconds; zero disables the deadline.
    pub fn timeout(&self) -> (r: Option<u64>)
        ensures
            self.timeout_ms == 0 ==> r is None,
            self.timeout_ms > 0 ==> r == Some(self.timeout_ms),
    {
        if self.timeout_ms == 0 {
            None
        } else {
            Some(self.timeout_ms)
        }
    }

    /// The EHLO name: the configured one unless blank, else the fallback.
    pub fn helo_name(&self, fallback: &str) -> (r: String)
        ensures
            crate::strutil::spec_trim(self.helo_domain@).len() == 0 ==> r@ == fallback@,
            crate::strutil::spec_trim(self.helo_domain@).len() > 0 ==> r@ == self.helo_domain@,
    {
        let trimmed = crate::strutil::trim_str(self.helo_domain.as_str());
        if trimmed.len() == 0 {
            let mut out = String::new();
            out.append(fallback);
            out
        } else {
            self.helo_domain.clone()
        }
    }

    /// The envelope sender: the configured one unless empty, else the
    /// fallback.
    pub fn mail_from(&self, fallback: &str) -> (r: String)
        ensures
            self.mail_from@.len() == 0 ==> r@ == fallback@,
            self.mail_from@.len() > 0 ==> r@ == self.mail_from@,
    {
        if self.mail_from.as_str().is_empty() {
            let mut out = String::new();
            out.append(fallback);
            out
        } else {
            self.mail_from.clone()
        }
    }
}

/// Relies on rand's `Alphanumeric` distribution: each sampled byte is an
/// ASCII letter or digit (a-z, A-Z, 0-9), drawn from the thread's generator.
#[verifier::external_body]
fn random_alphanumeric(len: usize) -> (r: String)
    ensures
        r@.len() == len,
        forall|i: int| 0 <= i < r@.len() ==> spec_is_ascii_alphanumeric(#[trigger] r@[i]),
{
    rand::thread_rng().sample_iter(&rand::distributions::Alphanumeric).take(len).map(
        char::from,
    ).collect()
}

/// A random alphanumeric local part whose length is `len` clamped to the
/// range 6 through 32.
pub fn random_local_part(len: usize) -> (r: String)
    ensures
        r@.len() == (if len < 6 {
            6int
        } else if len > 32 {
            32int
        } else {
            len as int
        }),
        forall|i: int| 0 <= i < r@.len() ==> spec_is_ascii_alphanumeric(#[trigger] r@[i]),
{
    let length: usize = if len < 6 {
        6
    } else if len > 32 {
        32
    } else {
        len
    };
    random_alphanumeric(length)
}

// ---------------------------------------------------------------------------
// The per-host state machine
// ---------------------------------------------------------------------------

/// Where the session stands.
#[derive(Debug, Clone, Copy, PartialEq, Eq, Structural)]
pub enum ProbeStage {
    Banner,
    Ehlo,
    StartTlsReply,
    EhloAfterTls,
    MailFrom,
    RcptTarget,
    RcptProbe,
    Done,
}

/// What the caller must do next.
#[derive(Debug, Clone, PartialEq, Eq)]
pub enum ProbeStep {
    Send { stage: AttemptStage, command: String },
    StartTls,
    Conclude { existence: Existence, outcome: AttemptOutcome },
}

pub open spec fn spec_ehlo_cmd(helo: Seq<char>) -> Seq<char> {
    "EHLO "@ + helo
}

pub open spec fn spec_mail_from_cmd(mail_from: Seq<char>) -> Seq<char> {
    if mail_from.len() == 0 {
        "MAIL FROM:<>"@
    } else {
        "MAIL FROM:<"@ + mail_from + ">"@
    }
}

pub open spec fn spec_rcpt_cmd(local: Seq<char>, domain: Seq<char>) -> Seq<char> {
    "RCPT TO:<"@ + local + "@"@ + domain + ">"@
}

pub open spec fn spec_msg_not_receiving() -> Seq<char> {
    "server does not receive mail"@
}

pub open spec fn spec_msg_ehlo_rejected(code: u16) -> Seq<char> {
    "EHLO rejected: "@ + spec_dec(code as nat)
}

pub open spec fn spec_msg_starttls_missing(host: Seq<char>) -> Seq<char> {
    "STARTTLS required but not offered by "@ + host
}

pub open spec fn spec_msg_starttls_rejected(host: Seq<char>, code: u16) -> Seq<char> {
    "STARTTLS rejected by "@ + host + " (code "@ + spec_dec(code as nat) + ")"@
}

pub open spec fn spec_msg_mail_rejected(code: u16) -> Seq<char> {
    "MAIL FROM rejected with "@ + spec_dec(code as nat)
}

/// The reply advertises STARTTLS: some line's first token equals it,
/// ASCII-case-insensitively.
pub open spec fn spec_has_starttls(message: Seq<char>) -> bool {
    exists|i: int|
        0 <= i < crate::strutil::spec_split(message, '\n').len() && crate::strutil::spec_lower(
            crate::strutil::spec_first_token(#[trigger] crate::strutil::spec_split(
                message,
                '\n',
            )[i]),
        ) == crate::strutil::spec_lower("STARTTLS"@)
}

/// The first alias from index `i` on that differs from the real local part.
pub open spec fn spec_next_alias(aliases: Seq<Seq<char>>, local: Seq<char>, i: int) -> Option<int>
    decreases aliases.len() - i,
{
    if i < 0 || i >= aliases.len() {
        None
    } else if aliases[i] != local {
        Some(i)
    } else {
        spec_next_alias(aliases, local, i + 1)
    }
}

/// The configuration fields of a probe stay what they were.
pub open spec fn spec_same_session(a: HostProbe, b: HostProbe) -> bool {
    &&& a.host == b.host
    &&& a.helo == b.helo
    &&& a.mail_from == b.mail_from
    &&& a.local == b.local
    &&& a.domain == b.domain
    &&& a.starttls_required == b.starttls_required
    &&& a.catchall_locals == b.catchall_locals
}

/// The probing state machine of one host.
pub struct HostProbe {
    pub host: String,
    pub helo: String,
    pub mail_from: String,
    pub local: String,
    pub domain: String,
    pub starttls_required: bool,
    pub catchall_locals: Vec<String>,
    pub stage: ProbeStage,
    pub probe_idx: usize,
    pub accepted_random: usize,
    pub rejected_random: usize,
    pub tempfail_random: usize,
    pub target_reply: Option<SmtpReply>,
}

impl HostProbe {
    /// A machine at its start: the banner is expected first.
    pub fn new(
        host: String,
        helo: String,
        mail_from: String,
        local: String,
        domain: String,
        starttls_required: bool,
        catchall_locals: Vec<String>,
    ) -> (r: HostProbe)
        ensures
            r.stage is Banner,
            r.host@ == host@,
            r.helo@ == helo@,
            r.mail_from@ == mail_from@,
            r.local@ == local@,
            r.domain@ == domain@,
            r.starttls_required == starttls_required,
            r.catchall_locals.deep_view() == catchall_locals.deep_view(),
            r.probe_idx == 0,
            r.accepted_random == 0 && r.rejected_random == 0 && r.tempfail_random == 0,
    {
        HostProbe {
            host,
            helo,
            mail_from,
            local,
            domain,
            starttls_required,
            catchall_locals,
            stage: ProbeStage::Banner,
            probe_idx: 0,
            accepted_random: 0,
            rejected_random: 0,
            tempfail_random: 0,
            target_reply: None,
        }
    }

    /// The EHLO command of this session.
    pub fn ehlo_command(&self) -> (r: String)
        ensures
            r@ == spec_ehlo_cmd(self.helo@),
    {
        let mut m = String::from_str("EHLO ");
        m.append(self.helo.as_str());
        m
    }

    /// The MAIL FROM command: an empty sender is sent as `<>`.
    pub fn mail_from_command(&self) -> (r: String)
        ensures
            r@ == spec_mail_from_cmd(self.mail_from@),
    {
        if self.mail_from.as_str().is_empty() {
            String::from_str("MAIL FROM:<>")
        } else {
            let mut m = String::from_str("MAIL FROM:<");
            m.append(self.mail_from.as_str());
            m.append(">");
            m
        }
    }

    /// The RCPT command for a local part at this session's domain.
    pub fn rcpt_command(&self, local: &str) -> (r: String)
        ensures
            r@ == spec_rcpt_cmd(local@, self.domain@),
    {
        let mut m = String::from_str("RCPT TO:<");
        m.append(local);
        m.append("@");
        m.append(self.domain.as_str());
        m.append(">");
        m
    }

    /// Advance to the next alias that differs from the real local part, and
    /// hand back its RCPT command.
    fn next_probe(&mut self) -> (r: Option<ProbeStep>)
        ensures
            spec_same_session(*old(self), *final(self)),
            final(self).stage == old(self).stage,
            final(self).accepted_random == old(self).accepted_random,
            final(self).rejected_random == old(self).rejected_random,
            final(self).tempfail_random == old(self).tempfail_random,
            final(self).target_reply == old(self).target_reply,
            match spec_next_alias(
                old(self).catchall_locals.deep_view(),
                old(self).local@,
                old(self).probe_idx as int,
            ) {
                Some(k) => final(self).probe_idx == k + 1 && (r matches Some(step) && (
                step matches ProbeStep::Send { stage, command } && stage is RcptTo && command@
                    == spec_rcpt_cmd(
                    old(self).catchall_locals.deep_view()[k],
                    old(self).domain@,
                ))),
                None => r is None,
            },
    {
        loop
            invariant_except_break
                old(self).probe_idx <= self.probe_idx <= self.catchall_locals@.len() || (
                self.probe_idx == old(self).probe_idx),
                spec_same_session(*old(self), *self),
                self.stage == old(self).stage,
                self.accepted_random == old(self).accepted_random,
                self.rejected_random == old(self).rejected_random,
                self.tempfail_random == old(self).tempfail_random,
                self.target_reply == old(self).target_reply,
                spec_next_alias(
                    self.catchall_locals.deep_view(),
                    self.local@,
                    old(self).probe_idx as int,
                ) == spec_next_alias(
                    self.catchall_locals.deep_view(),
                    self.local@,
                    self.probe_idx as int,
                ),
            ensures
                spec_same_session(*old(self), *self),
                self.stage == old(self).stage,
                self.accepted_random == old(self).accepted_random,
                self.rejected_random == old(self).rejected_random,
                self.tempfail_random == old(self).tempfail_random,
                self.target_reply == old(self).target_reply,
                spec_next_alias(
                    self.catchall_locals.deep_view(),
                    self.local@,
                    old(self).probe_idx as int,
                ) == spec_next_alias(
                    self.catchall_locals.deep_view(),
                    self.local@,
                    self.probe_idx as int,
                ),
                self.probe_idx >= self.catchall_locals@.len() || (self.probe_idx
                    < self.catchall_locals@.len() && self.catchall_locals.deep_view()[
                self.probe_idx as int] != self.local@),
            decreases self.catchall_locals@.len() - self.probe_idx,
        {
            if self.probe_idx >= self.catchall_locals.len() {
                break;
            }
            proof {
                assert(self.catchall_locals.deep_view()[self.probe_idx as int]
                    == self.catchall_locals@[self.probe_idx as int]@);
            }
            if !str_eq(self.catchall_locals[self.probe_idx].as_str(), self.local.as_str()) {
                break;
            }
            self.probe_idx = self.probe_idx + 1;
        }
        if self.probe_idx >= self.catchall_locals.len() {
            proof {
                assert(spec_next_alias(
                    self.catchall_locals.deep_view(),
                    self.local@,
                    self.probe_idx as int,
                ) is None);
            }
            return None;
        }
        proof {
            assert(self.catchall_locals.deep_view()[self.probe_idx as int]
                == self.catchall_locals@[self.probe_idx as int]@);
            assert(spec_next_alias(
                self.catchall_locals.deep_view(),
                self.local@,
                self.probe_idx as int,
            ) == Some(self.probe_idx as int));
        }
        let alias = self.catchall_locals[self.probe_idx].clone();
        let cmd = self.rcpt_command(alias.as_str());
        self.probe_idx = self.probe_idx + 1;
        Some(ProbeStep::Send { stage: AttemptStage::RcptTo, command: cmd })
    }
}


/// Copy a reply.
pub fn clone_reply(r: &SmtpReply) -> (c: SmtpReply)
    ensures
        c@ == r@,
{
    SmtpReply { code: r.code, message: r.message.clone() }
}

/// A counter bumped by one, capped at the machine's limit.
pub open spec fn spec_bump(n: usize) -> usize {
    if n == usize::MAX {
        n
    } else {
        (n + 1) as usize
    }
}

fn bump(n: usize) -> (r: usize)
    ensures
        r == spec_bump(n),
{
    if n == usize::MAX {
        n
    } else {
        n + 1
    }
}

/// The transition relation of `on_reply`: how one reply moves the machine
/// from `pre` to `post` and what step it returns.
pub open spec fn spec_on_reply(pre: HostProbe, reply: SmtpReply, post: HostProbe, r: ProbeStep)
    -> bool {
    &&& ({
            spec_same_session(pre, post)
    })
    &&& ({
            !(pre.stage is RcptTarget) && !(pre.stage is RcptProbe) ==> post.probe_idx == pre.probe_idx && post.target_reply == pre.target_reply
    })
    &&& ({
            !(pre.stage is RcptProbe) ==> post.accepted_random == pre.accepted_random && post.rejected_random == pre.rejected_random
                && post.tempfail_random == pre.tempfail_random
    })
    &&& ({
            pre.stage is Banner && reply.code == 521 ==> post.stage is Done && (
            r matches ProbeStep::Conclude { existence, outcome } && existence@
                == ExistenceView::Indeterminate(spec_msg_not_receiving()) && (outcome@ matches
            AttemptOutcomeView::NoVerification { message } && message == spec_msg_not_receiving()))
    })
    &&& ({
            pre.stage is Banner && reply.code != 521 ==> post.stage is Ehlo && (
            r matches ProbeStep::Send { stage, command } && stage is Ehlo && command@
                == spec_ehlo_cmd(pre.helo@))
    })
    &&& ({
            pre.stage is Ehlo && !(200 <= reply.code < 300) ==> post.stage is Done
                && (r matches ProbeStep::Conclude { existence, outcome } && existence@
                == ExistenceView::Indeterminate(spec_msg_ehlo_rejected(reply.code)) && (outcome@
            matches AttemptOutcomeView::ProtocolError { message } && message
                == spec_msg_ehlo_rejected(reply.code)))
    })
    &&& ({
            pre.stage is Ehlo && 200 <= reply.code < 300 && spec_has_starttls(
                reply.message@,
            ) ==> post.stage is StartTlsReply && (r matches ProbeStep::Send {
                stage,
                command,
            } && stage is StartTls && command@ == "STARTTLS"@)
    })
    &&& ({
            pre.stage is Ehlo && 200 <= reply.code < 300 && !spec_has_starttls(
                reply.message@,
            ) && pre.starttls_required ==> post.stage is Done && (r matches
            ProbeStep::Conclude { existence, outcome } && existence@
                == ExistenceView::Indeterminate(spec_msg_starttls_missing(pre.host@)) && (
            outcome@ matches AttemptOutcomeView::ProtocolError { message } && message
                == spec_msg_starttls_missing(pre.host@)))
    })
    &&& ({
            pre.stage is Ehlo && 200 <= reply.code < 300 && !spec_has_starttls(
                reply.message@,
            ) && !pre.starttls_required ==> post.stage is MailFrom && (r matches
            ProbeStep::Send { stage, command } && stage is MailFrom && command@
                == spec_mail_from_cmd(pre.mail_from@))
    })
    &&& ({
            pre.stage is StartTlsReply && 200 <= reply.code < 300 ==> post.stage
                is EhloAfterTls && r is StartTls
    })
    &&& ({
            pre.stage is StartTlsReply && !(200 <= reply.code < 300) ==> post.stage
                is Done && (r matches ProbeStep::Conclude { existence, outcome } && existence@
                == ExistenceView::Indeterminate(
                spec_msg_starttls_rejected(pre.host@, reply.code),
            ) && (outcome@ matches AttemptOutcomeView::ProtocolError { message } && message
                == spec_msg_starttls_rejected(pre.host@, reply.code)))
    })
    &&& ({
            pre.stage is EhloAfterTls ==> post.stage is MailFrom && (r matches
            ProbeStep::Send { stage, command } && stage is MailFrom && command@
                == spec_mail_from_cmd(pre.mail_from@))
    })
    &&& ({
            pre.stage is MailFrom && 500 <= reply.code < 600 ==> post.stage is Done
                && (r matches ProbeStep::Conclude { existence, outcome } && existence@
                == ExistenceView::Indeterminate(spec_msg_mail_rejected(reply.code)) && (outcome@
            matches AttemptOutcomeView::Rejected { method, reply: orep } && method is RcptTo
                && orep == reply@))
    })
    &&& ({
            pre.stage is MailFrom && !(500 <= reply.code < 600) ==> post.stage
                is RcptTarget && (r matches ProbeStep::Send { stage, command } && stage is RcptTo
                && command@ == spec_rcpt_cmd(pre.local@, pre.domain@))
    })
    &&& ({
            pre.stage is RcptTarget && 200 <= reply.code < 300 ==> (post.target_reply
                matches Some(tr) && tr@ == reply@ && (match spec_next_alias(
                pre.catchall_locals.deep_view(),
                pre.local@,
                0,
            ) {
                Some(k) => post.stage is RcptProbe && post.probe_idx == k + 1 && (
                r matches ProbeStep::Send { stage, command } && stage is RcptTo && command@
                    == spec_rcpt_cmd(
                    pre.catchall_locals.deep_view()[k],
                    pre.domain@,
                )),
                None => post.stage is Done && (r matches ProbeStep::Conclude {
                    existence,
                    outcome,
                } && existence@ == (if pre.catchall_locals.deep_view().len() == 0 {
                    ExistenceView::Indeterminate("catch-all probes disabled"@)
                } else {
                    spec_catchall(0, 0, 0)
                }) && (outcome@ matches AttemptOutcomeView::Accepted { method, reply: orep }
                    && method is RcptTo && orep == reply@)),
            }))
    })
    &&& ({
            pre.stage is RcptTarget && spec_permanent_no_mailbox(reply.code) ==> post.stage is Done && (r matches ProbeStep::Conclude { existence, outcome } && existence@
                is DoesNotExist && (outcome@ matches AttemptOutcomeView::Rejected {
                method,
                reply: orep,
            } && method is RcptTo && orep == reply@))
    })
    &&& ({
            pre.stage is RcptTarget && !(200 <= reply.code < 300)
                && !spec_permanent_no_mailbox(reply.code) ==> post.stage is Done && (
            r matches ProbeStep::Conclude { existence, outcome } && existence@
                == ExistenceView::Indeterminate(
                (if reply.code == 521 {
                    spec_msg_521()
                } else if 400 <= reply.code < 500 {
                    spec_msg_tempfail(reply.code)
                } else {
                    spec_msg_unexpected(reply.code)
                }),
            ) && (if 500 <= reply.code < 600 {
                outcome@ matches AttemptOutcomeView::Rejected { method, reply: orep } && method
                    is RcptTo && orep == reply@
            } else if 400 <= reply.code < 500 {
                outcome@ matches AttemptOutcomeView::TemporaryFailure { method, reply: orep }
                    && method is RcptTo && orep == reply@
            } else {
                outcome@ matches AttemptOutcomeView::NoVerification { message } && message
                    == "RCPT TO response was inconclusive"@
            }))
    })
    &&& ({
            pre.stage is RcptProbe ==> {
                let acc = if 200 <= reply.code < 300 {
                    spec_bump(pre.accepted_random)
                } else {
                    pre.accepted_random
                };
                let rej = if spec_permanent_no_mailbox(reply.code) {
                    spec_bump(pre.rejected_random)
                } else {
                    pre.rejected_random
                };
                let tmp = if 400 <= reply.code < 500 {
                    spec_bump(pre.tempfail_random)
                } else {
                    pre.tempfail_random
                };
                &&& post.accepted_random == acc
                &&& post.rejected_random == rej
                &&& post.tempfail_random == tmp
                &&& (match spec_next_alias(
                    pre.catchall_locals.deep_view(),
                    pre.local@,
                    pre.probe_idx as int,
                ) {
                    Some(k) => post.stage is RcptProbe && post.probe_idx == k + 1
                        && (r matches ProbeStep::Send { stage, command } && stage is RcptTo
                        && command@ == spec_rcpt_cmd(
                        pre.catchall_locals.deep_view()[k],
                        pre.domain@,
                    )),
                    None => post.stage is Done && (r matches ProbeStep::Conclude {
                        existence,
                        outcome,
                    } && existence@ == spec_catchall(acc as int, rej as int, tmp as int) && (
                    outcome@ matches AttemptOutcomeView::Accepted { method, reply: orep }
                        && method is RcptTo && orep == pre.target_reply->0@)),
                })
            }
    })
}

impl HostProbe {
    /// Feed the machine the reply just read and learn what to do next: send
    /// another command and read again, upgrade the connection to TLS and
    /// then send the EHLO command once more, or conclude the host with its
    /// verdict and outcome.
    pub fn on_reply(&mut self, reply: &SmtpReply) -> (r: ProbeStep)
        requires
            !(old(self).stage is Done),
            old(self).stage is RcptTarget ==> old(self).probe_idx == 0,
            old(self).stage is RcptProbe ==> old(self).target_reply is Some,
        ensures
            spec_on_reply(*old(self), *reply, *final(self), r),
    {
        match self.stage {
            ProbeStage::Banner => {
                if reply.code == 521 {
                    self.stage = ProbeStage::Done;
                    ProbeStep::Conclude {
                        existence: Existence::Indeterminate(
                            String::from_str("server does not receive mail"),
                        ),
                        outcome: AttemptOutcome::NoVerification {
                            message: String::from_str("server does not receive mail"),
                        },
                    }
                } else {
                    self.stage = ProbeStage::Ehlo;
                    ProbeStep::Send {
                        stage: AttemptStage::Ehlo,
                        command: self.ehlo_command(),
                    }
                }
            },
            ProbeStage::Ehlo => {
                if !reply.is_positive_completion() {
                    let mut m = String::from_str("EHLO rejected: ");
                    push_dec_u64(&mut m, reply.code as u64);
                    self.stage = ProbeStage::Done;
                    ProbeStep::Conclude {
                        existence: Existence::Indeterminate(m.clone()),
                        outcome: AttemptOutcome::ProtocolError { message: m },
                    }
                } else if reply.has_capability("STARTTLS") {
                    self.stage = ProbeStage::StartTlsReply;
                    ProbeStep::Send {
                        stage: AttemptStage::StartTls,
                        command: String::from_str("STARTTLS"),
                    }
                } else if self.starttls_required {
                    let mut m = String::from_str("STARTTLS required but not offered by ");
                    m.append(self.host.as_str());
                    self.stage = ProbeStage::Done;
                    ProbeStep::Conclude {
                        existence: Existence::Indeterminate(m.clone()),
                        outcome: AttemptOutcome::ProtocolError { message: m },
                    }
                } else {
                    self.stage = ProbeStage::MailFrom;
                    ProbeStep::Send {
                        stage: AttemptStage::MailFrom,
                        command: self.mail_from_command(),
                    }
                }
            },
            ProbeStage::StartTlsReply => {
                if reply.is_positive_completion() {
                    self.stage = ProbeStage::EhloAfterTls;
                    ProbeStep::StartTls
                } else {
                    let mut m = String::from_str("STARTTLS rejected by ");
                    m.append(self.host.as_str());
                    m.append(" (code ");
                    push_dec_u64(&mut m, reply.code as u64);
                    m.append(")");
                    self.stage = ProbeStage::Done;
                    ProbeStep::Conclude {
                        existence: Existence::Indeterminate(m.clone()),
                        outcome: AttemptOutcome::ProtocolError { message: m },
                    }
                }
            },
            ProbeStage::EhloAfterTls => {
                self.stage = ProbeStage::MailFrom;
                ProbeStep::Send {
                    stage: AttemptStage::MailFrom,
                    command: self.mail_from_command(),
                }
            },
            ProbeStage::MailFrom => {
                if reply.is_permanent_failure() {
                    let mut m = String::from_str("MAIL FROM rejected with ");
                    push_dec_u64(&mut m, reply.code as u64);
                    self.stage = ProbeStage::Done;
                    ProbeStep::Conclude {
                        existence: Existence::Indeterminate(m),
                        outcome: AttemptOutcome::Rejected {
                            method: VerificationMethod::RcptTo,
                            reply: clone_reply(reply),
                        },
                    }
                } else {
                    self.stage = ProbeStage::RcptTarget;
                    let local = self.local.clone();
                    ProbeStep::Send {
                        stage: AttemptStage::RcptTo,
                        command: self.rcpt_command(local.as_str()),
                    }
                }
            },
            ProbeStage::RcptTarget => {
                let classified = classify_target(reply);
                match classified {
                    TargetExistence::Accepted => {
                        self.target_reply = Some(clone_reply(reply));
                        let next = self.next_probe();
                        match next {
                            Some(step) => {
                                self.stage = ProbeStage::RcptProbe;
                                step
                            },
                            None => {
                                self.stage = ProbeStage::Done;
                                let existence = if self.catchall_locals.len() == 0 {
                                    Existence::Indeterminate(
                                        String::from_str("catch-all probes disabled"),
                                    )
                                } else {
                                    catchall_verdict(0, 0, 0)
                                };
                                ProbeStep::Conclude {
                                    existence,
                                    outcome: AttemptOutcome::Accepted {
                                        method: VerificationMethod::RcptTo,
                                        reply: clone_reply(reply),
                                    },
                                }
                            },
                        }
                    },
                    TargetExistence::DoesNotExist => {
                        self.stage = ProbeStage::Done;
                        ProbeStep::Conclude {
                            existence: Existence::DoesNotExist,
                            outcome: AttemptOutcome::Rejected {
                                method: VerificationMethod::RcptTo,
                                reply: clone_reply(reply),
                            },
                        }
                    },
                    TargetExistence::Indeterminate(m) => {
                        self.stage = ProbeStage::Done;
                        let outcome = if reply.is_permanent_failure() {
                            AttemptOutcome::Rejected {
                                method: VerificationMethod::RcptTo,
                                reply: clone_reply(reply),
                            }
                        } else if reply.is_transient_failure() {
                            AttemptOutcome::TemporaryFailure {
                                method: VerificationMethod::RcptTo,
                                reply: clone_reply(reply),
                            }
                        } else {
                            AttemptOutcome::NoVerification {
                                message: String::from_str("RCPT TO response was inconclusive"),
                            }
                        };
                        ProbeStep::Conclude { existence: Existence::Indeterminate(m), outcome }
                    },
                }
            },
            ProbeStage::RcptProbe => {
                if reply.is_positive_completion() {
                    self.accepted_random = bump(self.accepted_random);
                }
                if is_permanent_no_mailbox(reply) {
                    self.rejected_random = bump(self.rejected_random);
                }
                if reply.is_transient_failure() {
                    self.tempfail_random = bump(self.tempfail_random);
                }
                let next = self.next_probe();
                match next {
                    Some(step) => step,
                    None => {
                        self.stage = ProbeStage::Done;
                        let verdict = catchall_verdict(
                            self.accepted_random,
                            self.rejected_random,
                            self.tempfail_random,
                        );
                        let target = match &self.target_reply {
                            Some(tr) => clone_reply(tr),
                            None => clone_reply(reply),
                        };
                        ProbeStep::Conclude {
                            existence: verdict,
                            outcome: AttemptOutcome::Accepted {
                                method: VerificationMethod::RcptTo,
                                reply: target,
                            },
                        }
                    },
                }
            },
            ProbeStage::Done => {
                proof {
                    assert(false);
                }
                ProbeStep::StartTls
            },
        }
    }
}



/// One transcript line: `[host] C: text`, `[host] S: text` or `[host] !: text`.
pub fn transcript_line(host: &str, direction: &str, text: &str) -> (r: String)
    ensures
        r@ == "["@ + host@ + "] "@ + direction@ + ": "@ + text@,
{
    let mut m = String::from_str("[");
    m.append(host);
    m.append("] ");
    m.append(direction);
    m.append(": ");
    m.append(text);
    m
}



/// Everything a probe needs before any socket is opened.
#[derive(Debug, Clone, PartialEq, Eq)]
pub struct ProbePlan {
    pub local: String,
    pub domain: String,
    pub helo: String,
    pub mail_from: String,
    pub alias_length: usize,
    pub alias_count: u8,
}

/// Decide the probe's inputs from a normalized address: the target local
/// part and ASCII domain, the EHLO name and envelope sender with their
/// fallbacks, the alias length (the local part's length clamped to 6..=32)
/// and the alias count (at most five). An invalid address, or one without a
/// domain, is refused with its reasons.
pub fn plan_probe(normalized: &crate::validator::NormalizedEmail, options: &SmtpProbeOptions)
    -> (r: Result<ProbePlan, Vec<String>>)
    ensures
        !normalized.valid ==> (r matches Err(reasons) && reasons.deep_view()
            == normalized.reasons.deep_view()),
        normalized.valid && normalized.ascii_domain@.len() == 0 && normalized.domain@.len() == 0
            ==> (r matches Err(reasons) && reasons.deep_view() == seq!["domain missing"@]),
        normalized.valid && (normalized.ascii_domain@.len() > 0 || normalized.domain@.len() > 0)
            ==> (r matches Ok(plan) && {
            &&& plan.local@ == normalized.local@
            &&& plan.domain@ == (if normalized.ascii_domain@.len() > 0 {
                normalized.ascii_domain@
            } else {
                normalized.domain@
            })
            &&& plan.alias_length == (if normalized.local@.len() < 6 {
                6int
            } else if normalized.local@.len() > 32 {
                32int
            } else {
                normalized.local@.len() as int
            })
            &&& plan.alias_count == (if options.catchall_probes > 5 {
                5u8
            } else {
                options.catchall_probes
            })
            &&& plan.mail_from@ == (if options.mail_from@.len() > 0 {
                options.mail_from@
            } else {
                "postmaster@"@ + (if normalized.ascii_domain@.len() > 0 {
                    normalized.ascii_domain@
                } else {
                    normalized.domain@
                })
            })
        }),
{
    if !normalized.valid {
        return Err(crate::strutil::clone_string_vec(&normalized.reasons));
    }
    let domain = if !normalized.ascii_domain.as_str().is_empty() {
        normalized.ascii_domain.clone()
    } else if !normalized.domain.as_str().is_empty() {
        normalized.domain.clone()
    } else {
        let mut reasons: Vec<String> = Vec::new();
        reasons.push(String::from_str("domain missing"));
        proof {
            assert(reasons.deep_view() =~~= seq!["domain missing"@]);
        }
        return Err(reasons);
    };
    let local = normalized.local.clone();
    let local_chars = str_to_chars(local.as_str());
    let alias_length: usize = if local_chars.len() < 6 {
        6
    } else if local_chars.len() > 32 {
        32
    } else {
        local_chars.len()
    };
    let alias_count: u8 = if options.catchall_probes > 5 {
        5
    } else {
        options.catchall_probes
    };
    let mut fallback_sender = String::from_str("postmaster@");
    fallback_sender.append(domain.as_str());
    let mail_from = options.mail_from(fallback_sender.as_str());
    let helo = options.helo_name(domain.as_str());
    Ok(ProbePlan { local, domain, helo, mail_from, alias_length, alias_count })
}



/// A host that answers the banner (not 521), accepts EHLO without offering
/// STARTTLS when none is required, accepts MAIL FROM, and then denies the
/// target mailbox with 550, 551 or 553, concludes `DoesNotExist` with a
/// `Rejected` outcome — whatever else the replies said.
pub proof fn lemma_rejected_target_concludes_does_not_exist(
    m0: HostProbe,
    r1: SmtpReply,
    m1: HostProbe,
    s1: ProbeStep,
    r2: SmtpReply,
    m2: HostProbe,
    s2: ProbeStep,
    r3: SmtpReply,
    m3: HostProbe,
    s3: ProbeStep,
    r4: SmtpReply,
    m4: HostProbe,
    s4: ProbeStep,
)
    requires
        m0.stage is Banner,
        !m0.starttls_required,
        spec_on_reply(m0, r1, m1, s1),
        r1.code != 521,
        spec_on_reply(m1, r2, m2, s2),
        200 <= r2.code < 300,
        !spec_has_starttls(r2.message@),
        spec_on_reply(m2, r3, m3, s3),
        !(500 <= r3.code < 600),
        spec_on_reply(m3, r4, m4, s4),
        spec_permanent_no_mailbox(r4.code),
    ensures
        m4.stage is Done,
        s4 matches ProbeStep::Conclude { existence, outcome } && existence@ is DoesNotExist
            && outcome@ is Rejected,
{
    assert(m1.stage is Ehlo);
    assert(!m1.starttls_required);
    assert(m2.stage is MailFrom);
    assert(m3.stage is RcptTarget);
    assert(!(200 <= r4.code < 300));
}

/// A host that walks the same dialogue but accepts the target and then also
/// accepts the one probing alias (distinct from the real local part)
/// concludes `CatchAll` with an `Accepted` outcome.
pub proof fn lemma_accepted_alias_concludes_catch_all(
    m0: HostProbe,
    alias: Seq<char>,
    r1: SmtpReply,
    m1: HostProbe,
    s1: ProbeStep,
    r2: SmtpReply,
    m2: HostProbe,
    s2: ProbeStep,
    r3: SmtpReply,
    m3: HostProbe,
    s3: ProbeStep,
    r4: SmtpReply,
    m4: HostProbe,
    s4: ProbeStep,
    r5: SmtpReply,
    m5: HostProbe,
    s5: ProbeStep,
)
    requires
        m0.stage is Banner,
        !m0.starttls_required,
        m0.probe_idx == 0,
        m0.accepted_random == 0 && m0.rejected_random == 0 && m0.tempfail_random == 0,
        m0.catchall_locals.deep_view() == seq![alias],
        alias != m0.local@,
        spec_on_reply(m0, r1, m1, s1),
        r1.code != 521,
        spec_on_reply(m1, r2, m2, s2),
        200 <= r2.code < 300,
        !spec_has_starttls(r2.message@),
        spec_on_reply(m2, r3, m3, s3),
        !(500 <= r3.code < 600),
        spec_on_reply(m3, r4, m4, s4),
        200 <= r4.code < 300,
        spec_on_reply(m4, r5, m5, s5),
        200 <= r5.code < 300,
    ensures
        m5.stage is Done,
        s5 matches ProbeStep::Conclude { existence, outcome } && existence@ is CatchAll
            && outcome@ is Accepted,
{
    assert(m1.stage is Ehlo);
    assert(m2.stage is MailFrom);
    assert(m3.stage is RcptTarget);
    assert(m3.catchall_locals == m0.catchall_locals);
    assert(m3.local == m0.local);
    assert(m3.probe_idx == 0);
    assert(m3.catchall_locals.deep_view()[0] == alias);
    assert(spec_next_alias(m3.catchall_locals.deep_view(), m3.local@, 0) == Some(0int));
    assert(m4.stage is RcptProbe);
    assert(m4.probe_idx == 1);
    assert(m4.accepted_random == 0 && m4.rejected_random == 0 && m4.tempfail_random == 0);
    assert(spec_next_alias(m4.catchall_locals.deep_view(), m4.local@, 1) is None);
    assert(spec_bump(0) == 1);
    assert(spec_catchall(1, 0, 0) is CatchAll);
}


} // verus!
