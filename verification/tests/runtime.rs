use spalhad::actor::{on_handled, on_wake, ActorOptions, Turn, Wake, DEFAULT_CHANNEL_SIZE};
use spalhad::cluster::RunId;
use spalhad::sync::{Error, SelfActivation, Stage, Step};
use spalhad::task::{AtLeastOneTaskFailed, TaskLedger};

#[test]
fn actor_options_default_to_ten() {
    assert_eq!(DEFAULT_CHANNEL_SIZE, 10);
    assert_eq!(ActorOptions::new().channel_size, 10);
    assert_eq!(ActorOptions::new().with_channel_size(3).channel_size, 3);
    let mut options = ActorOptions::new();
    options.set_channel_size(64);
    assert_eq!(options.channel_size, 64);
}

#[test]
fn actor_loop_turns() {
    assert_eq!(on_wake(Wake::Cancelled), Turn::Exit);
    assert_eq!(on_wake(Wake::InboxClosed), Turn::Exit);
    assert_eq!(on_wake(Wake::Call), Turn::Dispatch);
    assert_eq!(on_handled(false), Turn::Continue);
    assert_eq!(on_handled(true), Turn::Fail);
}

#[test]
fn task_ledger_remembers_failures() {
    let mut ledger = TaskLedger::new();
    assert!(!ledger.must_shut_down());
    assert_eq!(ledger.wait_all(), Ok(()));
    ledger.record(false);
    assert_eq!(ledger.wait_all(), Ok(()));
    ledger.record(true);
    assert!(ledger.must_shut_down());
    ledger.record(false);
    assert_eq!(ledger.wait_all(), Err(AtLeastOneTaskFailed));
    assert_eq!(
        AtLeastOneTaskFailed.message(),
        "At least one task failed, please consult the logs"
    );
}

#[test]
fn self_activation_under_own_run() {
    let id = RunId::from_bytes([1; 16]);
    let mut activation = SelfActivation::start(id);
    assert_eq!(activation.stage(), Stage::Checking);
    assert!(matches!(activation.step(), Step::FetchRunId));
    activation.on_run_id(id);
    assert_eq!(activation.stage(), Stage::Activating);
    match activation.step() {
        Step::Activate(run_id) => assert_eq!(run_id, id),
        other => panic!("unexpected step {:?}", other),
    }
    activation.on_activated();
    assert_eq!(activation.stage(), Stage::Active);
    assert!(matches!(activation.step(), Step::Done));
}

#[test]
fn self_address_mismatch_fails_fast() {
    let own = RunId::from_bytes([1; 16]);
    let other = RunId::from_bytes([2; 16]);
    let mut activation = SelfActivation::start(own);
    activation.on_run_id(other);
    assert_eq!(activation.stage(), Stage::Failed);
    match activation.step() {
        Step::Fail(error) => assert_eq!(error, Error::SelfAddressMismatch),
        other => panic!("unexpected step {:?}", other),
    }
    let mut ledger = TaskLedger::new();
    ledger.record(matches!(activation.step(), Step::Fail(_)));
    assert!(ledger.must_shut_down());
    assert_eq!(ledger.wait_all(), Err(AtLeastOneTaskFailed));
    assert_eq!(Error::SelfAddressMismatch.message(), "self address leads to another run");
}
