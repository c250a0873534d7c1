//! The bouncer: the guard that lets calls through to the storage and the
//! coordinator only once the node was activated under its own run.
//!
//! The bouncer holds no handle and sends nothing. It is told what kind of
//! call came in and says what to do with it.

use crate::actor::{ActorCall, CallInjection, CallSuperset};
use crate::cluster::RunId;
use crate::coordinator::{self, CoordinatorCall};
use crate::error::CallError;
use crate::storage::{self, StorageCall};
use vstd::prelude::*;
use vstd::std_specs::convert::FromSpecImpl;

verus! {

/// Why the bouncer refused a call.
#[derive(Debug, Clone, Copy, PartialEq, Eq, Structural)]
pub enum Error {
    /// The node was activated before.
    AlreadyActive,
    /// The activation named another run than the node's own.
    BadRunId,
    /// The node was not activated yet.
    NotActive,
}

impl Error {
    /// The text of the error.
    pub open spec fn text(self) -> Seq<char> {
        match self {
            Error::AlreadyActive => "bouncer is already active"@,
            Error::BadRunId => "attempted to activate bouncer with incorrect run id"@,
            Error::NotActive => "bouncer is not active yet"@,
        }
    }

    /// The text of the error.
    pub fn message(&self) -> (text: String)
        ensures
            text@ == self.text(),
    {
        match self {
            Error::AlreadyActive => "bouncer is already active".to_string(),
            Error::BadRunId => "attempted to activate bouncer with incorrect run id".to_string(),
            Error::NotActive => "bouncer is not active yet".to_string(),
        }
    }
}

/// The call that activates the node, naming the run that it takes the
/// node to be in.
#[derive(Debug, Clone, Copy)]
pub struct Activate {
    pub run_id: RunId,
}

/// What a successful activation gives.
#[derive(Debug, Clone, Copy, PartialEq, Eq, Structural)]
pub struct Activated;

/// The call that asks whether the node is active.
#[derive(Debug, Clone, Copy, PartialEq, Eq, Structural)]
pub struct IsActive;

/// What asking gives: whether the node is active.
pub type IsActiveOutput = bool;

/// An activation, as a call.
pub type ActivateCall = ActorCall<Activate, Activated>;

/// The question whether the node is active, as a call.
pub type IsActiveCall = ActorCall<IsActive, IsActiveOutput>;

/// The calls that the bouncer takes: its own, and those of the storage
/// and of the coordinator, which stand behind it.
#[derive(Debug)]
pub enum BouncerCall {
    Activate(ActivateCall),
    IsActive(IsActiveCall),
    Storage(StorageCall),
    Coordinator(CoordinatorCall),
}

impl BouncerCall {
    /// The call that is there was answered with `error` on its own
    /// channel, and `delivered` is what the channel made of that. For a
    /// call of the storage or of the coordinator this is what their own
    /// unions say of it.
    pub open spec fn replies_error(self, error: CallError, delivered: bool) -> bool {
        match self {
            BouncerCall::Activate(call) => call.replies_error(error, delivered),
            BouncerCall::IsActive(call) => call.replies_error(error, delivered),
            BouncerCall::Storage(call) => call.replies_error(error, delivered),
            BouncerCall::Coordinator(call) => call.replies_error(error, delivered),
        }
    }
}

impl CallSuperset for BouncerCall {
    /// Answers whichever call is there with `error`: the reply is that
    /// call's own reply with the error.
    fn reply_error(self, error: CallError) -> (delivered: bool)
        ensures
            self.replies_error(error, delivered),
    {
        match self {
            BouncerCall::Activate(call) => call.reply_error(error),
            BouncerCall::IsActive(call) => call.reply_error(error),
            BouncerCall::Storage(call) => call.reply_error(error),
            BouncerCall::Coordinator(call) => call.reply_error(error),
        }
    }
}

impl CallInjection<ActivateCall> for BouncerCall {
    open spec fn injected(call: ActivateCall) -> BouncerCall {
        BouncerCall::Activate(call)
    }

    fn inject(call: ActivateCall) -> (union: BouncerCall) {
        BouncerCall::Activate(call)
    }
}

impl CallInjection<IsActiveCall> for BouncerCall {
    open spec fn injected(call: IsActiveCall) -> BouncerCall {
        BouncerCall::IsActive(call)
    }

    fn inject(call: IsActiveCall) -> (union: BouncerCall) {
        BouncerCall::IsActive(call)
    }
}

impl CallInjection<storage::GetCall> for BouncerCall {
    open spec fn injected(call: storage::GetCall) -> BouncerCall {
        BouncerCall::Storage(StorageCall::Get(call))
    }

    fn inject(call: storage::GetCall) -> (union: BouncerCall) {
        BouncerCall::Storage(StorageCall::inject(call))
    }
}

impl CallInjection<storage::PutCall> for BouncerCall {
    open spec fn injected(call: storage::PutCall) -> BouncerCall {
        BouncerCall::Storage(StorageCall::Put(call))
    }

    fn inject(call: storage::PutCall) -> (union: BouncerCall) {
        BouncerCall::Storage(StorageCall::inject(call))
    }
}

impl CallInjection<coordinator::GetCall> for BouncerCall {
    open spec fn injected(call: coordinator::GetCall) -> BouncerCall {
        BouncerCall::Coordinator(CoordinatorCall::Get(call))
    }

    fn inject(call: coordinator::GetCall) -> (union: BouncerCall) {
        BouncerCall::Coordinator(CoordinatorCall::inject(call))
    }
}

impl CallInjection<coordinator::PutCall> for BouncerCall {
    open spec fn injected(call: coordinator::PutCall) -> BouncerCall {
        BouncerCall::Coordinator(CoordinatorCall::Put(call))
    }

    fn inject(call: coordinator::PutCall) -> (union: BouncerCall) {
        BouncerCall::Coordinator(CoordinatorCall::inject(call))
    }
}

impl From<StorageCall> for BouncerCall {
    fn from(call: StorageCall) -> (union: BouncerCall) {
        BouncerCall::Storage(call)
    }
}

impl FromSpecImpl<StorageCall> for BouncerCall {
    open spec fn obeys_from_spec() -> bool {
        true
    }

    open spec fn from_spec(call: StorageCall) -> BouncerCall {
        BouncerCall::Storage(call)
    }
}

impl From<CoordinatorCall> for BouncerCall {
    fn from(call: CoordinatorCall) -> (union: BouncerCall) {
        BouncerCall::Coordinator(call)
    }
}

impl FromSpecImpl<CoordinatorCall> for BouncerCall {
    open spec fn obeys_from_spec() -> bool {
        true
    }

    open spec fn from_spec(call: CoordinatorCall) -> BouncerCall {
        BouncerCall::Coordinator(call)
    }
}

/// A call in the bouncer's inbox, by what the bouncer looks at.
#[derive(Debug, Clone, Copy)]
pub enum Incoming {
    /// An activation.
    Activate(Activate),
    /// The question whether the node is active.
    IsActive(IsActive),
    /// Any call for the storage.
    Storage,
    /// Any call for the coordinator.
    Coordinator,
}

/// What the bouncer looks at in `call`.
pub open spec fn incoming_of(call: BouncerCall) -> Incoming {
    match call {
        BouncerCall::Activate(call) => Incoming::Activate(call.input),
        BouncerCall::IsActive(call) => Incoming::IsActive(call.input),
        BouncerCall::Storage(_) => Incoming::Storage,
        BouncerCall::Coordinator(_) => Incoming::Coordinator,
    }
}

impl BouncerCall {
    /// What the bouncer looks at in the call.
    pub fn incoming(&self) -> (incoming: Incoming)
        ensures
            incoming == incoming_of(*self),
    {
        match self {
            BouncerCall::Activate(call) => Incoming::Activate(call.input),
            BouncerCall::IsActive(call) => Incoming::IsActive(call.input),
            BouncerCall::Storage(_) => Incoming::Storage,
            BouncerCall::Coordinator(_) => Incoming::Coordinator,
        }
    }
}

/// What the bouncer does with a call.
#[derive(Debug, Clone, Copy, PartialEq, Eq, Structural)]
pub enum Verdict {
    /// Reply to the activation that it succeeded.
    ReplyActivated(Activated),
    /// Reply whether the node is active.
    ReplyIsActive(IsActiveOutput),
    /// Hand the call on to the storage.
    ForwardToStorage,
    /// Hand the call on to the coordinator.
    ForwardToCoordinator,
    /// Reply to the call with an error.
    ReplyError(Error),
}

/// A call that the bouncer let through, and where it goes.
#[derive(Debug)]
pub enum Forward {
    /// The call was answered; nothing goes on.
    Nothing,
    /// The call goes on to the storage.
    Storage(StorageCall),
    /// The call goes on to the coordinator.
    Coordinator(CoordinatorCall),
}

/// The state of a bouncer, as contracts see it.
pub struct BouncerView {
    pub active: bool,
    pub run_id: Seq<u8>,
}

/// The guard at the door of a node.
#[derive(Debug)]
pub struct Bouncer {
    active: bool,
    run_id: RunId,
}

impl View for Bouncer {
    type V = BouncerView;

    closed spec fn view(&self) -> BouncerView {
        BouncerView { active: self.active, run_id: self.run_id@ }
    }
}

/// What a bouncer in `state` does with `call`.
pub open spec fn verdict(state: BouncerView, call: Incoming) -> Verdict {
    match call {
        Incoming::Activate(activate) => if state.active {
            Verdict::ReplyError(Error::AlreadyActive)
        } else if activate.run_id@ == state.run_id {
            Verdict::ReplyActivated(Activated)
        } else {
            Verdict::ReplyError(Error::BadRunId)
        },
        Incoming::IsActive(_) => Verdict::ReplyIsActive(state.active),
        Incoming::Storage => if state.active {
            Verdict::ForwardToStorage
        } else {
            Verdict::ReplyError(Error::NotActive)
        },
        Incoming::Coordinator => if state.active {
            Verdict::ForwardToCoordinator
        } else {
            Verdict::ReplyError(Error::NotActive)
        },
    }
}

/// The state of a bouncer in `state` after `call`: it becomes active on
/// the activation that names its run, and never changes otherwise.
pub open spec fn after(state: BouncerView, call: Incoming) -> BouncerView {
    BouncerView {
        active: state.active || verdict(state, call) == Verdict::ReplyActivated(Activated),
        run_id: state.run_id,
    }
}

impl Bouncer {
    /// A bouncer for the run `run_id`, not active yet.
    pub fn open(run_id: RunId) -> (bouncer: Bouncer)
        ensures
            bouncer@ == (BouncerView { active: false, run_id: run_id@ }),
    {
        Bouncer { active: false, run_id }
    }

    /// Whether the node is active.
    pub fn is_active(&self) -> (active: bool)
        ensures
            active == self@.active,
    {
        self.active
    }

    /// Handles one call of the inbox: replies to it where the bouncer
    /// answers it itself, with what `verdict` says, and hands it back
    /// where it is to go on to the storage or to the coordinator.
    pub fn on_call(&mut self, call: BouncerCall) -> (forward: Forward)
        ensures
            final(self)@ == after(old(self)@, incoming_of(call)),
            forward == match verdict(old(self)@, incoming_of(call)) {
                Verdict::ForwardToStorage => Forward::Storage(call->Storage_0),
                Verdict::ForwardToCoordinator => Forward::Coordinator(call->Coordinator_0),
                _ => Forward::Nothing,
            },
            match verdict(old(self)@, incoming_of(call)) {
                Verdict::ReplyActivated(activated) => call is Activate
                    && call->Activate_0.back.answered(Ok(activated)),
                Verdict::ReplyIsActive(active) => call is IsActive
                    && call->IsActive_0.back.answered(Ok(active)),
                Verdict::ReplyError(error) => exists|delivered: bool|
                    call.replies_error(CallError::Bouncer(error), delivered),
                Verdict::ForwardToStorage => true,
                Verdict::ForwardToCoordinator => true,
            },
    {
        let ghost whole = call;
        let verdict = self.decide(&call.incoming());
        match verdict {
            Verdict::ReplyActivated(activated) => {
                if let BouncerCall::Activate(call) = call {
                    let ghost back = call.back;
                    let delivered = call.back.reply_ok(activated);
                    assert(back.replies(Ok(activated), delivered));
                }
                Forward::Nothing
            },
            Verdict::ReplyIsActive(active) => {
                if let BouncerCall::IsActive(call) = call {
                    let ghost back = call.back;
                    let delivered = call.back.reply_ok(active);
                    assert(back.replies(Ok(active), delivered));
                }
                Forward::Nothing
            },
            Verdict::ForwardToStorage => match call {
                BouncerCall::Storage(call) => Forward::Storage(call),
                _ => Forward::Nothing,
            },
            Verdict::ForwardToCoordinator => match call {
                BouncerCall::Coordinator(call) => Forward::Coordinator(call),
                _ => Forward::Nothing,
            },
            Verdict::ReplyError(error) => {
                let delivered = call.reply_error(CallError::Bouncer(error));
                assert(whole.replies_error(CallError::Bouncer(error), delivered));
                Forward::Nothing
            },
        }
    }

    /// Decides on one call and takes the new state.
    pub fn decide(&mut self, call: &Incoming) -> (r: Verdict)
        ensures
            r == verdict(old(self)@, *call),
            final(self)@ == after(old(self)@, *call),
    {
        match call {
            Incoming::Activate(activate) => {
                if self.active {
                    Verdict::ReplyError(Error::AlreadyActive)
                } else if self.run_id == activate.run_id {
                    self.active = true;
                    Verdict::ReplyActivated(Activated)
                } else {
                    Verdict::ReplyError(Error::BadRunId)
                }
            },
            Incoming::IsActive(_) => Verdict::ReplyIsActive(self.active),
            Incoming::Storage => {
                if self.active {
                    Verdict::ForwardToStorage
                } else {
                    Verdict::ReplyError(Error::NotActive)
                }
            },
            Incoming::Coordinator => {
                if self.active {
                    Verdict::ForwardToCoordinator
                } else {
                    Verdict::ReplyError(Error::NotActive)
                }
            },
        }
    }
}

/// The state of a bouncer that started in `state` and took `calls` in
/// order.
pub open spec fn after_all(state: BouncerView, calls: Seq<Incoming>) -> BouncerView
    decreases calls.len(),
{
    if calls.len() == 0 {
        state
    } else {
        after(after_all(state, calls.drop_last()), calls.last())
    }
}

/// While the node is not active no call for the storage or the
/// coordinator gets through: each is answered with `NotActive`.
pub proof fn lemma_closed_while_inactive(state: BouncerView, call: Incoming)
    requires
        !state.active,
        call is Storage || call is Coordinator,
    ensures
        verdict(state, call) == Verdict::ReplyError(Error::NotActive),
        after(state, call) == state,
{
}

/// A bouncer is active only after an activation under its own run
/// succeeded: if a bouncer that started inactive is active after `calls`,
/// one of them was an activation that named its run and was answered
/// with success.
pub proof fn lemma_active_only_by_own_run(state: BouncerView, calls: Seq<Incoming>) -> (at: int)
    requires
        !state.active,
        after_all(state, calls).active,
    ensures
        0 <= at < calls.len(),
        calls[at] is Activate,
        calls[at]->Activate_0.run_id@ == state.run_id,
        verdict(after_all(state, calls.take(at)), calls[at]) == Verdict::ReplyActivated(Activated),
    decreases calls.len(),
{
    let before = after_all(state, calls.drop_last());
    lemma_run_id_kept(state, calls.drop_last());
    if before.active {
        let at = lemma_active_only_by_own_run(state, calls.drop_last());
        assert(calls.take(at) =~= calls.drop_last().take(at));
        at
    } else {
        let at = calls.len() - 1;
        assert(calls.take(at) =~= calls.drop_last());
        at
    }
}

/// A bouncer keeps its run, and once active stays active.
pub proof fn lemma_run_id_kept(state: BouncerView, calls: Seq<Incoming>)
    ensures
        after_all(state, calls).run_id == state.run_id,
        state.active ==> after_all(state, calls).active,
    decreases calls.len(),
{
    if calls.len() > 0 {
        lemma_run_id_kept(state, calls.drop_last());
    }
}

/// A call of the storage or of the coordinator goes into the bouncer's
/// union by way of the union of its own actor: sending it through the
/// bouncer's handle and sending the union that its own actor takes come
/// to the same.
pub proof fn lemma_injection_flattens(
    storage_get: storage::GetCall,
    storage_put: storage::PutCall,
    coordinator_get: coordinator::GetCall,
    coordinator_put: coordinator::PutCall,
)
    ensures
        <BouncerCall as CallInjection<storage::GetCall>>::injected(storage_get)
            == BouncerCall::Storage(
            <StorageCall as CallInjection<storage::GetCall>>::injected(storage_get),
        ),
        <BouncerCall as CallInjection<storage::PutCall>>::injected(storage_put)
            == BouncerCall::Storage(
            <StorageCall as CallInjection<storage::PutCall>>::injected(storage_put),
        ),
        <BouncerCall as CallInjection<coordinator::GetCall>>::injected(coordinator_get)
            == BouncerCall::Coordinator(
            <CoordinatorCall as CallInjection<coordinator::GetCall>>::injected(coordinator_get),
        ),
        <BouncerCall as CallInjection<coordinator::PutCall>>::injected(coordinator_put)
            == BouncerCall::Coordinator(
            <CoordinatorCall as CallInjection<coordinator::PutCall>>::injected(coordinator_put),
        ),
        incoming_of(<BouncerCall as CallInjection<storage::GetCall>>::injected(storage_get))
            == Incoming::Storage,
        incoming_of(<BouncerCall as CallInjection<storage::PutCall>>::injected(storage_put))
            == Incoming::Storage,
        incoming_of(
            <BouncerCall as CallInjection<coordinator::GetCall>>::injected(coordinator_get),
        ) == Incoming::Coordinator,
        incoming_of(
            <BouncerCall as CallInjection<coordinator::PutCall>>::injected(coordinator_put),
        ) == Incoming::Coordinator,
{
}

} // verus!
