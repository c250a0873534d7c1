use spalhad::bouncer::{Activate, Activated, Bouncer, Error, Incoming, IsActive, Verdict};
use spalhad::cluster::RunId;

fn run(byte: u8) -> RunId {
    RunId::from_bytes([byte; 16])
}

#[test]
fn bouncer_starts_inactive() {
    let mut bouncer = Bouncer::open(run(1));
    assert!(!bouncer.is_active());
    assert_eq!(bouncer.decide(&Incoming::IsActive(IsActive)), Verdict::ReplyIsActive(false));
}

#[test]
fn bouncer_refuses_data_before_activation() {
    let mut bouncer = Bouncer::open(run(1));
    assert_eq!(bouncer.decide(&Incoming::Storage), Verdict::ReplyError(Error::NotActive));
    assert_eq!(bouncer.decide(&Incoming::Coordinator), Verdict::ReplyError(Error::NotActive));
    assert!(!bouncer.is_active());
}

#[test]
fn bouncer_rejects_another_run() {
    let mut bouncer = Bouncer::open(run(1));
    let call = Incoming::Activate(Activate { run_id: run(2) });
    assert_eq!(bouncer.decide(&call), Verdict::ReplyError(Error::BadRunId));
    assert!(!bouncer.is_active());
    assert_eq!(bouncer.decide(&Incoming::Storage), Verdict::ReplyError(Error::NotActive));
}

#[test]
fn bouncer_activates_under_its_own_run() {
    let mut bouncer = Bouncer::open(run(1));
    let call = Incoming::Activate(Activate { run_id: run(1) });
    assert_eq!(bouncer.decide(&call), Verdict::ReplyActivated(Activated));
    assert!(bouncer.is_active());
    assert_eq!(bouncer.decide(&Incoming::IsActive(IsActive)), Verdict::ReplyIsActive(true));
    assert_eq!(bouncer.decide(&Incoming::Storage), Verdict::ForwardToStorage);
    assert_eq!(bouncer.decide(&Incoming::Coordinator), Verdict::ForwardToCoordinator);
}

#[test]
fn bouncer_activates_once() {
    let mut bouncer = Bouncer::open(run(1));
    let call = Incoming::Activate(Activate { run_id: run(1) });
    assert_eq!(bouncer.decide(&call), Verdict::ReplyActivated(Activated));
    assert_eq!(bouncer.decide(&call), Verdict::ReplyError(Error::AlreadyActive));
    let other = Incoming::Activate(Activate { run_id: run(2) });
    assert_eq!(bouncer.decide(&other), Verdict::ReplyError(Error::AlreadyActive));
    assert!(bouncer.is_active());
}

#[test]
fn bouncer_error_messages() {
    assert_eq!(Error::AlreadyActive.message(), "bouncer is already active");
    assert_eq!(
        Error::BadRunId.message(),
        "attempted to activate bouncer with incorrect run id"
    );
    assert_eq!(Error::NotActive.message(), "bouncer is not active yet");
}
