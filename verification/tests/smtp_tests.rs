use mailcheck_lib::smtp::ProbeStage;
use mailcheck_lib::{
    AttemptOutcome, AttemptStage, Existence, HostProbe, MailboxStatus, ProbeStep,
    ReplyAccumulator, ServerAttempt, SmtpReply, VerificationMethod, aggregate_status,
    catchall_verdict, random_local_part,
};

fn reply(code: u16, message: &str) -> SmtpReply {
    SmtpReply {
        code,
        message: message.to_string(),
    }
}

fn probe(aliases: Vec<&str>) -> HostProbe {
    HostProbe::new(
        "mx.example.com".to_string(),
        "localhost".to_string(),
        "postmaster@example.com".to_string(),
        "user".to_string(),
        "example.com".to_string(),
        false,
        aliases.into_iter().map(|a| a.to_string()).collect(),
    )
}

fn expect_send(step: ProbeStep, stage: AttemptStage) -> String {
    match step {
        ProbeStep::Send {
            stage: got,
            command,
        } => {
            assert_eq!(got, stage);
            command
        }
        other => panic!("expected a send step, got {:?}", other),
    }
}

#[test]
fn aggregate_prefers_success_over_rejection() {
    let mut attempt = ServerAttempt::new("mx.example".to_string());
    attempt.outcome = AttemptOutcome::Accepted {
        method: VerificationMethod::RcptTo,
        reply: reply(250, "Ok"),
    };
    let status = aggregate_status(&vec![attempt]);
    assert!(matches!(status, MailboxStatus::Deliverable));
}

#[test]
fn aggregate_reports_temporary_failure() {
    let mut attempt = ServerAttempt::new("mx.example".to_string());
    attempt.outcome = AttemptOutcome::TemporaryFailure {
        method: VerificationMethod::RcptTo,
        reply: reply(451, "Please try later"),
    };
    let status = aggregate_status(&vec![attempt]);
    match status {
        MailboxStatus::TemporaryFailure { code, .. } => assert_eq!(code, 451),
        other => panic!("expected temporary failure, got {other:?}"),
    }
}

#[test]
fn aggregate_all_unreachable() {
    let mut attempt = ServerAttempt::new("mx.example".to_string());
    attempt.outcome = AttemptOutcome::Unreachable {
        message: "no route".to_string(),
    };
    let status = aggregate_status(&vec![attempt]);
    assert!(matches!(status, MailboxStatus::Unreachable));
}

#[test]
fn rejected_target_means_mailbox_does_not_exist() {
    let mut machine = probe(vec![]);
    let step = machine.on_reply(&reply(220, "mock.smtp.test ESMTP"));
    assert_eq!(expect_send(step, AttemptStage::Ehlo), "EHLO localhost");
    let step = machine.on_reply(&reply(250, "mock.example"));
    assert_eq!(
        expect_send(step, AttemptStage::MailFrom),
        "MAIL FROM:<postmaster@example.com>"
    );
    let step = machine.on_reply(&reply(250, "2.1.0 Ok"));
    assert_eq!(
        expect_send(step, AttemptStage::RcptTo),
        "RCPT TO:<user@example.com>"
    );
    let step = machine.on_reply(&reply(550, "5.1.1 User unknown"));
    match step {
        ProbeStep::Conclude { existence, outcome } => {
            assert_eq!(existence, Existence::DoesNotExist);
            assert!(matches!(outcome, AttemptOutcome::Rejected { .. }));
        }
        other => panic!("expected conclusion, got {:?}", other),
    }
    assert_eq!(machine.stage, ProbeStage::Done);
}

#[test]
fn accepted_random_alias_means_catch_all() {
    let mut machine = probe(vec!["random1"]);
    let step = machine.on_reply(&reply(220, "mock.smtp.test ESMTP"));
    expect_send(step, AttemptStage::Ehlo);
    let step = machine.on_reply(&reply(250, "mock.example"));
    expect_send(step, AttemptStage::MailFrom);
    let step = machine.on_reply(&reply(250, "2.1.0 Ok"));
    expect_send(step, AttemptStage::RcptTo);
    let step = machine.on_reply(&reply(250, "2.1.5 Ok"));
    assert_eq!(
        expect_send(step, AttemptStage::RcptTo),
        "RCPT TO:<random1@example.com>"
    );
    let step = machine.on_reply(&reply(250, "2.1.5 Ok"));
    match step {
        ProbeStep::Conclude { existence, outcome } => {
            assert_eq!(existence, Existence::CatchAll);
            assert!(matches!(outcome, AttemptOutcome::Accepted { .. }));
        }
        other => panic!("expected conclusion, got {:?}", other),
    }
}

#[test]
fn rejected_random_alias_confirms_existence() {
    let mut machine = probe(vec!["random1"]);
    machine.on_reply(&reply(220, "ready"));
    machine.on_reply(&reply(250, "mock.example"));
    machine.on_reply(&reply(250, "ok"));
    machine.on_reply(&reply(250, "ok"));
    let step = machine.on_reply(&reply(550, "no such user"));
    match step {
        ProbeStep::Conclude { existence, .. } => assert_eq!(existence, Existence::Exists),
        other => panic!("expected conclusion, got {:?}", other),
    }
}

#[test]
fn starttls_advertised_is_negotiated() {
    let mut machine = probe(vec![]);
    machine.on_reply(&reply(220, "ready"));
    let step = machine.on_reply(&reply(250, "mock.example\nSTARTTLS\nSIZE 1000"));
    assert_eq!(expect_send(step, AttemptStage::StartTls), "STARTTLS");
    let step = machine.on_reply(&reply(220, "go ahead"));
    assert!(matches!(step, ProbeStep::StartTls));
    // after the TLS upgrade the caller sends EHLO again
    let step = machine.on_reply(&reply(250, "mock.example"));
    expect_send(step, AttemptStage::MailFrom);
}

#[test]
fn starttls_required_but_absent_gives_up() {
    let mut machine = HostProbe::new(
        "mx.example.com".to_string(),
        "localhost".to_string(),
        String::new(),
        "user".to_string(),
        "example.com".to_string(),
        true,
        Vec::new(),
    );
    machine.on_reply(&reply(220, "ready"));
    let step = machine.on_reply(&reply(250, "mock.example"));
    match step {
        ProbeStep::Conclude { existence, .. } => match existence {
            Existence::Indeterminate(m) => {
                assert!(m.contains("STARTTLS required but not offered"))
            }
            other => panic!("expected indeterminate, got {:?}", other),
        },
        other => panic!("expected conclusion, got {:?}", other),
    }
}

#[test]
fn banner_521_means_host_refuses_mail() {
    let mut machine = probe(vec![]);
    let step = machine.on_reply(&reply(521, "we do not accept mail"));
    match step {
        ProbeStep::Conclude { existence, .. } => {
            assert_eq!(
                existence,
                Existence::Indeterminate("server does not receive mail".to_string())
            );
        }
        other => panic!("expected conclusion, got {:?}", other),
    }
}

#[test]
fn empty_sender_uses_null_return_path() {
    let mut machine = HostProbe::new(
        "mx.example.com".to_string(),
        "localhost".to_string(),
        String::new(),
        "user".to_string(),
        "example.com".to_string(),
        false,
        Vec::new(),
    );
    machine.on_reply(&reply(220, "ready"));
    let step = machine.on_reply(&reply(250, "mock.example"));
    assert_eq!(expect_send(step, AttemptStage::MailFrom), "MAIL FROM:<>");
}

#[test]
fn multi_line_reply_shares_one_code() {
    let mut acc = ReplyAccumulator::new();
    assert_eq!(acc.push_line("250-first line"), Ok(None));
    let parsed = acc.push_line("250 second line").unwrap().unwrap();
    assert_eq!(parsed.code, 250);
    assert_eq!(parsed.message, "first line\nsecond line");
}

#[test]
fn inconsistent_codes_are_a_protocol_fault() {
    let mut acc = ReplyAccumulator::new();
    assert_eq!(acc.push_line("250-first"), Ok(None));
    let err = acc.push_line("251 second").expect_err("codes differ");
    assert!(err.contains("inconsistent reply codes: 250 vs 251"));
}

#[test]
fn reply_codes_stay_inside_the_smtp_range() {
    let mut acc = ReplyAccumulator::new();
    let err = acc.push_line("099 too low").expect_err("code out of range");
    assert!(err.contains("invalid code"));
    let mut acc2 = ReplyAccumulator::new();
    let err2 = acc2.push_line("6xx nonsense").expect_err("not a code");
    assert!(err2.contains("invalid code"));
    let mut acc3 = ReplyAccumulator::new();
    let ok = acc3.push_line("599 upper bound").unwrap().unwrap();
    assert_eq!(ok.code, 599);
}

#[test]
fn catchall_verdict_cases() {
    assert_eq!(catchall_verdict(1, 0, 0), Existence::CatchAll);
    assert_eq!(catchall_verdict(0, 1, 0), Existence::Exists);
    assert_eq!(
        catchall_verdict(0, 1, 1),
        Existence::Indeterminate("temporary failure on catch-all probes".to_string())
    );
    assert_eq!(
        catchall_verdict(0, 0, 0),
        Existence::Indeterminate("ambiguous catch-all probes".to_string())
    );
}

#[test]
fn random_local_part_is_clamped_and_alphanumeric() {
    let short = random_local_part(2);
    assert_eq!(short.len(), 6);
    let long = random_local_part(100);
    assert_eq!(long.len(), 32);
    let exact = random_local_part(10);
    assert_eq!(exact.len(), 10);
    assert!(exact.chars().all(|c| c.is_ascii_alphanumeric()));
    assert!(short.chars().all(|c| c.is_ascii_alphanumeric()));
}

#[test]
fn capability_matching_ignores_case_and_parameters() {
    let r = reply(250, "mock.example\nsize 1000\nStartTLS");
    assert!(r.has_capability("STARTTLS"));
    assert!(!r.has_capability("PIPELINING"));
}

#[test]
fn verdict_precedence_over_attempts() {
    let mut rejected = ServerAttempt::new("a.example".to_string());
    rejected.outcome = AttemptOutcome::Rejected {
        method: VerificationMethod::RcptTo,
        reply: reply(550, "no"),
    };
    let mut tempfail = ServerAttempt::new("b.example".to_string());
    tempfail.outcome = AttemptOutcome::TemporaryFailure {
        method: VerificationMethod::RcptTo,
        reply: reply(451, "later"),
    };
    let mut accepted = ServerAttempt::new("c.example".to_string());
    accepted.outcome = AttemptOutcome::Accepted {
        method: VerificationMethod::RcptTo,
        reply: reply(250, "ok"),
    };

    // an acceptance anywhere wins
    let status = aggregate_status(&vec![rejected.clone(), tempfail.clone(), accepted]);
    assert!(matches!(status, MailboxStatus::Deliverable));

    // otherwise the first rejection wins over temporary failures
    let status = aggregate_status(&vec![tempfail.clone(), rejected]);
    match status {
        MailboxStatus::Rejected { code, .. } => assert_eq!(code, 550),
        other => panic!("expected rejected, got {other:?}"),
    }

    // a lone temporary failure is reported as such
    let status = aggregate_status(&vec![tempfail]);
    assert!(matches!(status, MailboxStatus::TemporaryFailure { .. }));
}

#[test]
fn plan_probe_clamps_aliases_and_falls_back_to_postmaster() {
    let normalized =
        mailcheck_lib::normalize_email("ab@example.com", mailcheck_lib::ValidationMode::Strict)
            .unwrap();
    let mut options = mailcheck_lib::SmtpProbeOptions::default();
    options.catchall_probes = 9;
    let plan = mailcheck_lib::smtp::plan_probe(&normalized, &options).expect("plan");
    assert_eq!(plan.alias_length, 6);
    assert_eq!(plan.alias_count, 5);
    assert_eq!(plan.mail_from, "postmaster@example.com");
    assert_eq!(plan.domain, "example.com");
}

#[test]
fn plan_probe_refuses_invalid_address() {
    let normalized =
        mailcheck_lib::normalize_email("not-an-address", mailcheck_lib::ValidationMode::Strict)
            .unwrap();
    let options = mailcheck_lib::SmtpProbeOptions::default();
    let reasons = mailcheck_lib::smtp::plan_probe(&normalized, &options).expect_err("invalid");
    assert!(!reasons.is_empty());
}

#[test]
fn check_options_default_sender_is_postmaster() {
    let options = mailcheck_lib::MailboxCheckOptions::default();
    assert_eq!(options.envelope_sender("example.org"), "postmaster@example.org");
    assert_eq!(options.helo_domain("example.org"), "example.org");
    let mut named = mailcheck_lib::MailboxCheckOptions::default();
    named.helo_domain = Some("probe.example".to_string());
    named.envelope_sender = Some("checker@probe.example".to_string());
    assert_eq!(named.helo_domain("example.org"), "probe.example");
    assert_eq!(named.envelope_sender("example.org"), "checker@probe.example");
}
