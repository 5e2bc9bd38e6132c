//! The stage which commits blocks.
use vstd::prelude::*;

use super::execution::ExecutionStage;
use super::layout::{Pipeline, PipelineConfig};

verus! {

/// What the stage is to do.
#[derive(Clone, Copy, Debug, PartialEq, Eq, Structural)]
pub enum CommitAction {
    /// Wait until execution is done.
    AwaitExecution,
    /// Commit blocks until no more come in.
    Commit,
    /// Stop without having committed anything.
    Stop,
}

/// The stage which commits blocks.
#[derive(Clone, Copy, Debug, PartialEq, Eq, Structural)]
pub struct CommitStage {
    /// Whether the end of execution is still to come.
    pub waiting: bool,
    /// Whether nothing is committed.
    pub skip: bool,
}

impl CommitStage {
    /// What the stage is to do.
    pub open spec fn spec_action(self) -> CommitAction {
        if self.waiting {
            CommitAction::AwaitExecution
        } else if self.skip {
            CommitAction::Stop
        } else {
            CommitAction::Commit
        }
    }

    /// Returns the stage of a pipeline.
    pub fn start<P>(pipeline: &Pipeline<P>) -> (stage: CommitStage)
        ensures
            stage.waiting == pipeline.commit_waits,
            stage.skip == pipeline.skip_commit,
    {
        CommitStage { waiting: pipeline.commit_waits, skip: pipeline.skip_commit }
    }

    /// Takes note that execution is done.
    pub fn execution_done(&mut self)
        ensures
            *final(self) == (CommitStage { waiting: false, ..*old(self) }),
            !final(self).waiting,
            final(self).skip == old(self).skip,
    {
        self.waiting = false;
    }

    /// Returns what the stage is to do.
    pub fn action(&self) -> (action: CommitAction)
        ensures
            action == self.spec_action(),
            action == CommitAction::AwaitExecution <==> self.waiting,
            action == CommitAction::Stop <==> !self.waiting && self.skip,
            action == CommitAction::Commit <==> !self.waiting && !self.skip,
    {
        if self.waiting {
            CommitAction::AwaitExecution
        } else if self.skip {
            CommitAction::Stop
        } else {
            CommitAction::Commit
        }
    }
}

/// Committing waits for the end of execution exactly if execution tells it
/// when that is. What it does then is to commit, unless nothing is to be
/// committed; in that case it has always waited.
pub proof fn law_commit_waits_exactly_if_it_is_told<P>(
    pipeline: Pipeline<P>,
    config: PipelineConfig<P>,
    num_blocks: Option<usize>,
    stage: CommitStage,
)
    requires
        pipeline.is_for(config, num_blocks),
        stage.waiting == pipeline.commit_waits,
        stage.skip == pipeline.skip_commit,
    ensures
        stage.spec_action() == CommitAction::AwaitExecution <==> ExecutionStage::initial(
            pipeline,
        ).starts_commit,
        config.split_stages ==> stage.spec_action() == CommitAction::AwaitExecution,
        config.skip_commit ==> stage.spec_action() == CommitAction::AwaitExecution,
        (CommitStage { waiting: false, ..stage }).spec_action() == if config.skip_commit {
            CommitAction::Stop
        } else {
            CommitAction::Commit
        },
{
}

} // verus!
