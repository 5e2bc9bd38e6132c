//! The stage which executes blocks.
use vstd::prelude::*;

use super::layout::{Pipeline, PipelineConfig};

verus! {

/// What happens to the stage.
#[derive(Clone, Copy, Debug, PartialEq, Eq, Structural)]
pub enum ExecutionEvent {
    /// The wait for the start is over.
    Started,
    /// A block with this number of transactions has come in.
    Received(usize),
    /// No more blocks will come in.
    Disconnected,
}

/// What the stage is to do.
#[derive(Clone, Copy, Debug, PartialEq, Eq, Structural)]
pub enum ExecutionAction {
    /// Wait for the start.
    AwaitStart,
    /// Wait for the next block.
    AwaitBlock,
    /// Execute the block which has come in, then wait for the next.
    ExecuteBlock,
    /// Report how many transactions were executed, tell committing to start if
    /// it waits for that, and stop.
    Finish { executed: usize, start_commit: bool },
}

/// Where the stage is.
#[derive(Clone, Copy, Debug, PartialEq, Eq, Structural)]
pub enum ExecutionPhase {
    Waiting,
    Running,
    Finished,
}

/// The stage which executes blocks.
#[derive(Clone, Copy, Debug, PartialEq, Eq, Structural)]
pub struct ExecutionStage {
    pub phase: ExecutionPhase,
    /// The number of transactions executed so far.
    pub executed: usize,
    /// Whether committing waits for the end of execution.
    pub starts_commit: bool,
}

impl ExecutionStage {
    /// The stage of a pipeline before anything has happened.
    pub open spec fn initial<P>(pipeline: Pipeline<P>) -> ExecutionStage {
        ExecutionStage {
            phase: if pipeline.execution_waits {
                ExecutionPhase::Waiting
            } else {
                ExecutionPhase::Running
            },
            executed: 0,
            starts_commit: pipeline.commit_waits,
        }
    }

    /// Whether the event can happen: the start while it is waited for, all
    /// else after it, and nothing after the end. Transactions are counted up
    /// to `usize::MAX`.
    pub open spec fn expects(self, event: ExecutionEvent) -> bool {
        match event {
            ExecutionEvent::Started => self.phase == ExecutionPhase::Waiting,
            ExecutionEvent::Received(size) => self.phase == ExecutionPhase::Running && self.executed
                + size <= usize::MAX,
            ExecutionEvent::Disconnected => self.phase == ExecutionPhase::Running,
        }
    }

    /// The stage after an event, and what it is to do.
    pub open spec fn next(self, event: ExecutionEvent) -> (ExecutionStage, ExecutionAction) {
        match event {
            ExecutionEvent::Started => (
                ExecutionStage { phase: ExecutionPhase::Running, ..self },
                ExecutionAction::AwaitBlock,
            ),
            ExecutionEvent::Received(size) => (
                ExecutionStage { executed: (self.executed + size) as usize, ..self },
                ExecutionAction::ExecuteBlock,
            ),
            ExecutionEvent::Disconnected => (
                ExecutionStage { phase: ExecutionPhase::Finished, ..self },
                ExecutionAction::Finish {
                    executed: self.executed,
                    start_commit: self.starts_commit,
                },
            ),
        }
    }

    /// Returns the stage of a pipeline, and what it is to do first.
    pub fn start<P>(pipeline: &Pipeline<P>) -> (started: (ExecutionStage, ExecutionAction))
        ensures
            started.0 == ExecutionStage::initial(*pipeline),
            started.0.executed == 0,
            started.0.starts_commit == pipeline.commit_waits,
            pipeline.execution_waits ==> started.0.phase == ExecutionPhase::Waiting,
            !pipeline.execution_waits ==> started.0.phase == ExecutionPhase::Running,
            started.1 == if pipeline.execution_waits {
                ExecutionAction::AwaitStart
            } else {
                ExecutionAction::AwaitBlock
            },
    {
        let (phase, action) = if pipeline.execution_waits {
            (ExecutionPhase::Waiting, ExecutionAction::AwaitStart)
        } else {
            (ExecutionPhase::Running, ExecutionAction::AwaitBlock)
        };
        (ExecutionStage { phase, executed: 0, starts_commit: pipeline.commit_waits }, action)
    }

    /// Takes note of an event. Returns what is to be done.
    pub fn step(&mut self, event: ExecutionEvent) -> (action: ExecutionAction)
        requires
            old(self).expects(event),
        ensures
            (*final(self), action) == old(self).next(event),
            final(self).starts_commit == old(self).starts_commit,
            event == ExecutionEvent::Started ==> {
                &&& action == ExecutionAction::AwaitBlock
                &&& final(self).phase == ExecutionPhase::Running
                &&& final(self).executed == old(self).executed
            },
            event matches ExecutionEvent::Received(size) ==> {
                &&& action == ExecutionAction::ExecuteBlock
                &&& final(self).phase == old(self).phase
                &&& final(self).executed == old(self).executed + size
            },
            event == ExecutionEvent::Disconnected ==> {
                &&& action matches ExecutionAction::Finish { executed, start_commit }
                &&& executed == old(self).executed
                &&& start_commit == old(self).starts_commit
                &&& final(self).phase == ExecutionPhase::Finished
                &&& final(self).executed == old(self).executed
            },
    {
        match event {
            ExecutionEvent::Started => {
                self.phase = ExecutionPhase::Running;
                ExecutionAction::AwaitBlock
            },
            ExecutionEvent::Received(size) => {
                self.executed = self.executed + size;
                ExecutionAction::ExecuteBlock
            },
            ExecutionEvent::Disconnected => {
                self.phase = ExecutionPhase::Finished;
                ExecutionAction::Finish {
                    executed: self.executed,
                    start_commit: self.starts_commit,
                }
            },
        }
    }

    /// The stage after a run of events.
    pub open spec fn run(self, events: Seq<ExecutionEvent>) -> ExecutionStage
        decreases events.len(),
    {
        if events.len() == 0 {
            self
        } else {
            self.run(events.drop_last()).next(events.last()).0
        }
    }

    /// What the stage is to do after an event of a run.
    pub open spec fn action_at(self, events: Seq<ExecutionEvent>, i: int) -> ExecutionAction {
        self.run(events.take(i)).next(events[i]).1
    }

    /// Whether the events can happen one after the other.
    pub open spec fn expects_all(self, events: Seq<ExecutionEvent>) -> bool
        decreases events.len(),
    {
        events.len() == 0 || self.expects_all(events.drop_last()) && self.run(
            events.drop_last(),
        ).expects(events.last())
    }
}

/// The number of transactions in the blocks which have come in.
pub open spec fn received(events: Seq<ExecutionEvent>) -> nat
    decreases events.len(),
{
    if events.len() == 0 {
        0
    } else {
        received(events.drop_last()) + match events.last() {
            ExecutionEvent::Received(size) => size as nat,
            _ => 0,
        }
    }
}

/// At any time the number of transactions executed is that of the blocks which
/// have come in.
pub proof fn law_every_transaction_is_counted<P>(
    pipeline: Pipeline<P>,
    events: Seq<ExecutionEvent>,
)
    requires
        ExecutionStage::initial(pipeline).expects_all(events),
    ensures
        ExecutionStage::initial(pipeline).run(events).executed == received(events),
        ExecutionStage::initial(pipeline).run(events).starts_commit == pipeline.commit_waits,
    decreases events.len(),
{
    if events.len() > 0 {
        law_every_transaction_is_counted(pipeline, events.drop_last());
    }
}

/// A block is executed when one has come in, and at no other time.
pub proof fn law_blocks_are_executed_when_they_come_in<P>(
    pipeline: Pipeline<P>,
    events: Seq<ExecutionEvent>,
    i: int,
)
    requires
        0 <= i < events.len(),
    ensures
        ExecutionStage::initial(pipeline).action_at(events, i) == ExecutionAction::ExecuteBlock
            <==> events[i] is Received,
{
}

/// What an event does to the stage: the start lets it run, a block adds its
/// transactions to those counted and is executed, and the end reports the
/// count. Whether committing is told does not change on the way.
pub proof fn law_events_have_their_effects(stage: ExecutionStage, size: usize)
    requires
        stage.executed + size <= usize::MAX,
    ensures
        ({
            let (started, first) = stage.next(ExecutionEvent::Started);
            let (fuller, action) = stage.next(ExecutionEvent::Received(size));
            let (ended, last) = stage.next(ExecutionEvent::Disconnected);
            &&& first == ExecutionAction::AwaitBlock
            &&& started.phase == ExecutionPhase::Running
            &&& started.executed == stage.executed
            &&& action == ExecutionAction::ExecuteBlock
            &&& fuller.phase == stage.phase
            &&& fuller.executed == stage.executed + size
            &&& ended.phase == ExecutionPhase::Finished
            &&& last matches ExecutionAction::Finish { executed, start_commit } && executed
                == stage.executed && start_commit == stage.starts_commit
            &&& started.starts_commit == stage.starts_commit
            &&& fuller.starts_commit == stage.starts_commit
        }),
{
}

/// The start can happen exactly while it is waited for; a block can come in
/// exactly while the stage runs and its transactions can be counted; the end
/// can come exactly while the stage runs.
pub proof fn law_events_are_expected_in_their_phases(stage: ExecutionStage, size: usize)
    ensures
        stage.expects(ExecutionEvent::Started) <==> stage.phase == ExecutionPhase::Waiting,
        stage.expects(ExecutionEvent::Received(size)) <==> stage.phase == ExecutionPhase::Running
            && stage.executed + size <= usize::MAX,
        stage.expects(ExecutionEvent::Disconnected) <==> stage.phase == ExecutionPhase::Running,
{
}

/// Two blocks count as much as one with the transactions of both.
pub proof fn law_counting_adds_up(stage: ExecutionStage, a: usize, b: usize)
    requires
        stage.executed + a + b <= usize::MAX,
    ensures
        stage.next(ExecutionEvent::Received(a)).0.next(ExecutionEvent::Received(b)).0.executed
            == stage.next(ExecutionEvent::Received((a + b) as usize)).0.executed,
        stage.next(ExecutionEvent::Received(a)).0.next(ExecutionEvent::Received(b)).0.executed
            == stage.executed + a + b,
{
}

/// The number of transactions in blocks of the given sizes.
pub open spec fn total_size(sizes: Seq<usize>) -> nat
    decreases sizes.len(),
{
    if sizes.len() == 0 {
        0
    } else {
        total_size(sizes.drop_last()) + sizes.last() as nat
    }
}

/// What happens until blocks of the given sizes have come in: the start, if it
/// is waited for, and the blocks, one after the other.
pub open spec fn arrivals<P>(pipeline: Pipeline<P>, sizes: Seq<usize>) -> Seq<ExecutionEvent> {
    (if pipeline.execution_waits {
        seq![ExecutionEvent::Started]
    } else {
        Seq::empty()
    }) + sizes.map_values(|size: usize| ExecutionEvent::Received(size))
}

/// What happens if blocks of the given sizes are sent and no more follow.
pub open spec fn session<P>(pipeline: Pipeline<P>, sizes: Seq<usize>) -> Seq<ExecutionEvent> {
    arrivals(pipeline, sizes).push(ExecutionEvent::Disconnected)
}

proof fn lemma_arrivals<P>(pipeline: Pipeline<P>, sizes: Seq<usize>)
    requires
        total_size(sizes) <= usize::MAX,
    ensures
        ExecutionStage::initial(pipeline).expects_all(arrivals(pipeline, sizes)),
        ExecutionStage::initial(pipeline).run(arrivals(pipeline, sizes)) == (ExecutionStage {
            phase: ExecutionPhase::Running,
            executed: total_size(sizes) as usize,
            starts_commit: pipeline.commit_waits,
        }),
    decreases sizes.len(),
{
    let stage = ExecutionStage::initial(pipeline);
    let events = arrivals(pipeline, sizes);
    if sizes.len() > 0 {
        lemma_arrivals(pipeline, sizes.drop_last());
        assert(events.drop_last() =~= arrivals(pipeline, sizes.drop_last()));
        assert(events.last() == ExecutionEvent::Received(sizes.last()));
    } else if pipeline.execution_waits {
        assert(events.drop_last() =~= Seq::empty());
        assert(stage.run(events.drop_last()) == stage);
        assert(stage.expects_all(events.drop_last()));
        assert(events.last() == ExecutionEvent::Started);
    } else {
        assert(events =~= Seq::empty());
    }
}

/// All blocks which are sent are executed, each once and in the order in which
/// they were sent. In the end as many transactions are reported as the blocks
/// have, and committing is told to start if it waits for that.
pub proof fn law_sent_blocks_are_executed<P>(pipeline: Pipeline<P>, sizes: Seq<usize>)
    requires
        total_size(sizes) <= usize::MAX,
    ensures
        ({
            let stage = ExecutionStage::initial(pipeline);
            let events = session(pipeline, sizes);
            let opening = events.len() - sizes.len() - 1;
            &&& opening == if pipeline.execution_waits {
                1int
            } else {
                0
            }
            &&& stage.expects_all(events)
            &&& forall|k: int|
                0 <= k < sizes.len() ==> {
                    &&& events[opening + k] == ExecutionEvent::Received(#[trigger] sizes[k])
                    &&& stage.action_at(events, opening + k) == ExecutionAction::ExecuteBlock
                }
            &&& stage.action_at(events, events.len() - 1) == (ExecutionAction::Finish {
                executed: total_size(sizes) as usize,
                start_commit: pipeline.commit_waits,
            })
        }),
{
    let events = session(pipeline, sizes);
    lemma_arrivals(pipeline, sizes);
    assert(events.drop_last() =~= arrivals(pipeline, sizes));
    assert(events.take(events.len() - 1) =~= arrivals(pipeline, sizes));
}

/// Whether blocks are partitioned on a thread of its own changes nothing but
/// the stages and the queue between them: the other queues and the signals are
/// the same, and so is what the stage which executes blocks does.
pub proof fn law_partitioning_thread_changes_nothing_else<P>(
    a: Pipeline<P>,
    b: Pipeline<P>,
    config_a: PipelineConfig<P>,
    config_b: PipelineConfig<P>,
    num_blocks: Option<usize>,
    sizes: Seq<usize>,
    events: Seq<ExecutionEvent>,
)
    requires
        a.is_for(config_a, num_blocks),
        b.is_for(config_b, num_blocks),
        config_a.agrees_but_for_partitioning(config_b),
    ensures
        a.raw_block_bound == b.raw_block_bound,
        a.ledger_update_bound == b.ledger_update_bound,
        a.commit_bound == b.commit_bound,
        a.execution_waits == b.execution_waits,
        a.commit_waits == b.commit_waits,
        a.skip_commit == b.skip_commit,
        a.num_partitioner_shards == b.num_partitioner_shards,
        a.partitioner_config == b.partitioner_config,
        a.allow_discards == b.allow_discards,
        a.allow_aborts == b.allow_aborts,
        ExecutionStage::initial(a) == ExecutionStage::initial(b),
        session(a, sizes) == session(b, sizes),
        ExecutionStage::initial(a).expects_all(events) == ExecutionStage::initial(b).expects_all(
            events,
        ),
        forall|i: int|
            0 <= i < events.len() ==> #[trigger] ExecutionStage::initial(a).action_at(events, i)
                == ExecutionStage::initial(b).action_at(events, i),
{
}

proof fn lemma_prefix_is_expected(
    stage: ExecutionStage,
    events: Seq<ExecutionEvent>,
    count: int,
)
    requires
        stage.expects_all(events),
        0 <= count <= events.len(),
    ensures
        stage.expects_all(events.take(count)),
    decreases events.len(),
{
    if count == events.len() {
        assert(events.take(count) =~= events);
    } else {
        lemma_prefix_is_expected(stage, events.drop_last(), count);
        assert(events.drop_last().take(count) =~= events.take(count));
    }
}

/// No block is executed before the start, if the start is waited for.
pub proof fn law_nothing_happens_before_the_start<P>(
    pipeline: Pipeline<P>,
    events: Seq<ExecutionEvent>,
)
    requires
        pipeline.execution_waits,
        ExecutionStage::initial(pipeline).expects_all(events),
        events.len() > 0,
    ensures
        events[0] == ExecutionEvent::Started,
{
    let stage = ExecutionStage::initial(pipeline);
    lemma_prefix_is_expected(stage, events, 1);
    let first = events.take(1);
    assert(first.drop_last() =~= Seq::empty());
    assert(stage.run(first.drop_last()) == stage);
    assert(first.last() == events[0]);
}

/// Committing is told to start only if it waits for that, and only when no
/// more blocks will come in: nothing happens after it.
pub proof fn law_commit_is_started_at_the_end<P>(
    pipeline: Pipeline<P>,
    events: Seq<ExecutionEvent>,
    i: int,
)
    requires
        ExecutionStage::initial(pipeline).expects_all(events),
        0 <= i < events.len(),
        ExecutionStage::initial(pipeline).action_at(events, i) is Finish,
    ensures
        i == events.len() - 1,
        ExecutionStage::initial(pipeline).action_at(events, i) == (ExecutionAction::Finish {
            executed: received(events) as usize,
            start_commit: pipeline.commit_waits,
        }),
{
    let stage = ExecutionStage::initial(pipeline);
    lemma_prefix_is_expected(stage, events, i + 1);
    let upto = events.take(i + 1);
    assert(upto.drop_last() =~= events.take(i));
    assert(upto.last() == events[i]);
    assert(stage.run(upto).phase == ExecutionPhase::Finished);
    if i + 1 < events.len() {
        lemma_prefix_is_expected(stage, events, i + 2);
        let more = events.take(i + 2);
        assert(more.drop_last() =~= upto);
        assert(stage.run(upto).expects(more.last()));
    }
    assert(upto =~= events);
    law_every_transaction_is_counted(pipeline, events);
}

} // verus!
