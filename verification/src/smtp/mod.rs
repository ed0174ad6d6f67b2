//! The SMTP probing subsystem: replies and their wire parser, the typed
//! attempt log, and the per-host probing state machine.

pub mod probe;
pub mod reply;
pub mod types;

pub use probe::{Existence, HostProbe, ProbePlan, ProbeStage, ProbeStep, SmtpProbeOptions,
    plan_probe, random_local_part,
    catchall_verdict, classify_target, is_permanent_no_mailbox, transcript_line, clone_reply,
    TargetExistence};
pub use reply::{ReplyAccumulator, SmtpReply};
pub use types::{AttemptOutcome, AttemptStage, MailboxCheckOptions, MailboxStatus,
    MailboxVerification, ServerAttempt, SmtpEvent, VerificationMethod, aggregate_status};
