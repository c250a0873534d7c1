//! How a node activates itself at startup.
//!
//! The node asks the address that the cluster has for it which run
//! answers there. Only where that is its own run does it ask to be
//! activated; otherwise the address leads elsewhere and the node gives
//! up.

use crate::cluster::RunId;
use vstd::prelude::*;

verus! {

/// Why a node did not activate itself.
#[derive(Debug, Clone, Copy, PartialEq, Eq, Structural)]
pub enum Error {
    /// Another run answers at the address that the cluster has for the
    /// node.
    SelfAddressMismatch,
}

impl Error {
    /// The text of the error.
    pub open spec fn text(self) -> Seq<char> {
        "self address leads to another run"@
    }

    /// The text of the error.
    pub fn message(&self) -> (text: String)
        ensures
            text@ == self.text(),
    {
        "self address leads to another run".to_string()
    }
}

/// Where the activation stands.
#[derive(Debug, Clone, Copy, PartialEq, Eq, Structural)]
pub enum Stage {
    /// The run at the node's address is being asked for.
    Checking,
    /// The activation was asked for.
    Activating,
    /// The node is active.
    Active,
    /// The activation was given up.
    Failed,
}

/// What the node does next to activate itself.
#[derive(Debug, Clone, Copy)]
pub enum Step {
    /// Ask the node's address for the run that answers there.
    FetchRunId,
    /// Ask the node's address to activate under this run.
    Activate(RunId),
    /// Nothing is left to do.
    Done,
    /// Give up.
    Fail(Error),
}

/// The activation of a node by itself.
#[derive(Debug, Clone, Copy)]
pub struct SelfActivation {
    run_id: RunId,
    stage: Stage,
}

/// An activation, as contracts see it.
pub struct ActivationView {
    pub run_id: Seq<u8>,
    pub stage: Stage,
}

impl View for SelfActivation {
    type V = ActivationView;

    closed spec fn view(&self) -> ActivationView {
        ActivationView { run_id: self.run_id@, stage: self.stage }
    }
}

impl SelfActivation {
    /// The activation of the node in the run `self_run_id`, at its
    /// start: the run at the node's address is to be asked for.
    pub fn start(self_run_id: RunId) -> (activation: SelfActivation)
        ensures
            activation@ == (ActivationView { run_id: self_run_id@, stage: Stage::Checking }),
    {
        SelfActivation { run_id: self_run_id, stage: Stage::Checking }
    }

    /// Where the activation stands.
    pub fn stage(&self) -> (stage: Stage)
        ensures
            stage == self@.stage,
    {
        self.stage
    }

    /// What to do at the stage where the activation stands.
    pub fn step(&self) -> (step: Step)
        ensures
            match self@.stage {
                Stage::Checking => step is FetchRunId,
                Stage::Activating => step is Activate && step->Activate_0@ == self@.run_id,
                Stage::Active => step is Done,
                Stage::Failed => step is Fail && step->Fail_0 == Error::SelfAddressMismatch,
            },
    {
        match self.stage {
            Stage::Checking => Step::FetchRunId,
            Stage::Activating => Step::Activate(self.run_id),
            Stage::Active => Step::Done,
            Stage::Failed => Step::Fail(Error::SelfAddressMismatch),
        }
    }

    /// Takes the run that answered at the node's address: the activation
    /// goes on where it is the node's own run, and fails otherwise.
    pub fn on_run_id(&mut self, remote_run_id: RunId)
        requires
            old(self)@.stage == Stage::Checking,
        ensures
            final(self)@.run_id == old(self)@.run_id,
            final(self)@.stage == if remote_run_id@ == old(self)@.run_id {
                Stage::Activating
            } else {
                Stage::Failed
            },
    {
        if remote_run_id == self.run_id {
            self.stage = Stage::Activating;
        } else {
            self.stage = Stage::Failed;
        }
    }

    /// Takes the success of the activation that was asked for.
    pub fn on_activated(&mut self)
        requires
            old(self)@.stage == Stage::Activating,
        ensures
            final(self)@ == (ActivationView { stage: Stage::Active, ..old(self)@ }),
    {
        self.stage = Stage::Active;
    }
}

} // verus!
