//! Which stages a pipeline has, how long their queues are, and which of them
//! wait for a signal.
use vstd::prelude::*;

verus! {

/// How a pipeline is to work. `P` configures how blocks are partitioned.
#[derive(Clone, Copy, Debug)]
pub struct PipelineConfig<P> {
    /// Execution waits until it is told to start.
    pub delay_execution_start: bool,
    /// Nothing is committed before everything is executed.
    pub split_stages: bool,
    /// Nothing is committed at all.
    pub skip_commit: bool,
    pub allow_discards: bool,
    pub allow_aborts: bool,
    pub num_executor_shards: usize,
    /// Blocks are partitioned on a thread of its own.
    pub async_partitioning: bool,
    pub use_global_executor: bool,
    pub partitioner_config: P,
}

impl<P> PipelineConfig<P> {
    /// Whether committing has to wait until execution is done.
    pub open spec fn commit_waits(self) -> bool {
        self.split_stages || self.skip_commit
    }

    /// Whether the configurations agree, except perhaps on whether blocks are
    /// partitioned on a thread of its own.
    pub open spec fn agrees_but_for_partitioning(self, other: PipelineConfig<P>) -> bool {
        other == (PipelineConfig { async_partitioning: other.async_partitioning, ..self })
    }

    /// Whether messages pile up in queues, so that the number of blocks has to
    /// be known.
    pub open spec fn blocks_pile_up(self) -> bool {
        self.delay_execution_start || self.commit_waits()
    }
}

/// The number of blocks which the first queue holds at least.
pub const MIN_RAW_BLOCKS: usize = 50;

/// The number of messages which a queue between stages holds at least.
pub const MIN_MESSAGES: usize = 3;

/// A stage of a pipeline, which has a thread.
#[derive(Clone, Copy, Debug, PartialEq, Eq, Structural)]
pub enum Stage {
    /// Partitions blocks.
    BlockPartitioning,
    /// Executes blocks which are partitioned.
    TxnExecutor,
    /// Partitions blocks and executes them.
    TxnPartitionerExecutor,
    /// Updates the ledger.
    LedgerUpdate,
    /// Commits blocks.
    TxnCommitter,
}

impl Stage {
    /// Whether the stage partitions blocks.
    pub open spec fn partitions(self) -> bool {
        self == Stage::BlockPartitioning || self == Stage::TxnPartitionerExecutor
    }

    /// Whether the stage executes blocks.
    pub open spec fn executes(self) -> bool {
        self == Stage::TxnExecutor || self == Stage::TxnPartitionerExecutor
    }

    /// The name of the thread of the stage.
    pub open spec fn spec_name(self) -> Seq<char> {
        match self {
            Stage::BlockPartitioning => "block_partitioning"@,
            Stage::TxnExecutor => "txn_executor"@,
            Stage::TxnPartitionerExecutor => "txn_partitioner_executor"@,
            Stage::LedgerUpdate => "ledger_update"@,
            Stage::TxnCommitter => "txn_committer"@,
        }
    }

    /// Returns the name of the thread of the stage.
    pub fn name(&self) -> (name: &'static str)
        ensures
            name@ == self.spec_name(),
            *self is BlockPartitioning ==> name@ == "block_partitioning"@,
            *self is TxnExecutor ==> name@ == "txn_executor"@,
            *self is TxnPartitionerExecutor ==> name@ == "txn_partitioner_executor"@,
            *self is LedgerUpdate ==> name@ == "ledger_update"@,
            *self is TxnCommitter ==> name@ == "txn_committer"@,
    {
        match self {
            Stage::BlockPartitioning => "block_partitioning",
            Stage::TxnExecutor => "txn_executor",
            Stage::TxnPartitionerExecutor => "txn_partitioner_executor",
            Stage::LedgerUpdate => "ledger_update",
            Stage::TxnCommitter => "txn_committer",
        }
    }
}

/// How many messages a queue has to hold: those of all blocks and one more if
/// they pile up in it, and at least `least`.
pub open spec fn queue_bound(piles_up: bool, num_blocks: Option<usize>, least: usize) -> int {
    if piles_up && num_blocks->0 + 1 > least {
        num_blocks->0 + 1
    } else {
        least as int
    }
}

/// Returns how many messages a queue has to hold.
fn bound(piles_up: bool, num_blocks: Option<usize>, least: usize) -> (messages: usize)
    requires
        piles_up ==> (num_blocks matches Some(number) && number < usize::MAX),
    ensures
        messages == queue_bound(piles_up, num_blocks, least),
{
    if piles_up {
        let number = num_blocks.unwrap() + 1;
        if number > least {
            number
        } else {
            least
        }
    } else {
        least
    }
}

/// The stages which a pipeline has, in the order in which they start.
pub open spec fn stages_of(async_partitioning: bool) -> Seq<Stage> {
    if async_partitioning {
        seq![
            Stage::BlockPartitioning,
            Stage::TxnExecutor,
            Stage::LedgerUpdate,
            Stage::TxnCommitter,
        ]
    } else {
        seq![Stage::TxnPartitionerExecutor, Stage::LedgerUpdate, Stage::TxnCommitter]
    }
}

/// A pipeline: its queues, its stages and its signals. `P` configures how
/// blocks are partitioned.
#[derive(Debug)]
pub struct Pipeline<P> {
    /// How many blocks wait to enter at most.
    pub raw_block_bound: usize,
    /// How many partitioned blocks wait for execution at most, if they are
    /// partitioned on a thread of its own.
    pub executable_block_bound: Option<usize>,
    /// How many executed blocks wait for the update of the ledger at most.
    pub ledger_update_bound: usize,
    /// How many blocks wait to be committed at most.
    pub commit_bound: usize,
    /// Whether execution waits for a signal from outside.
    pub execution_waits: bool,
    /// Whether committing waits for a signal from execution.
    pub commit_waits: bool,
    /// Whether nothing is committed.
    pub skip_commit: bool,
    /// The partitioner works for as many shards as the executor.
    pub num_partitioner_shards: usize,
    /// How the partitioner works.
    pub partitioner_config: P,
    /// Whether the update of the ledger puts up with discarded transactions.
    pub allow_discards: bool,
    /// Whether the update of the ledger puts up with aborted transactions.
    pub allow_aborts: bool,
    /// The stages, in the order in which they start.
    pub stages: Vec<Stage>,
}

impl<P> Pipeline<P> {
    /// Whether the pipeline is one for the configuration and the number of
    /// blocks.
    pub open spec fn is_for(self, config: PipelineConfig<P>, num_blocks: Option<usize>) -> bool {
        &&& self.raw_block_bound == queue_bound(
            config.delay_execution_start,
            num_blocks,
            MIN_RAW_BLOCKS,
        )
        &&& self.executable_block_bound == if config.async_partitioning {
            Some(MIN_MESSAGES)
        } else {
            None
        }
        &&& self.ledger_update_bound == queue_bound(config.commit_waits(), num_blocks, MIN_MESSAGES)
        &&& self.commit_bound == queue_bound(config.commit_waits(), num_blocks, MIN_MESSAGES)
        &&& self.execution_waits == config.delay_execution_start
        &&& self.commit_waits == config.commit_waits()
        &&& self.skip_commit == config.skip_commit
        &&& self.num_partitioner_shards == config.num_executor_shards
        &&& self.partitioner_config == config.partitioner_config
        &&& self.allow_discards == config.allow_discards
        &&& self.allow_aborts == config.allow_aborts
        &&& self.stages@ == stages_of(config.async_partitioning)
    }

    /// Lays out a pipeline. If blocks pile up in queues, their number has to
    /// be known.
    pub fn new(config: &PipelineConfig<P>, num_blocks: Option<usize>) -> (pipeline: Pipeline<P>)
        where P: Copy,
        requires
            config.blocks_pile_up() ==> (num_blocks matches Some(number) && number < usize::MAX),
        ensures
            pipeline.is_for(*config, num_blocks),
            pipeline.execution_waits == config.delay_execution_start,
            pipeline.commit_waits == (config.split_stages || config.skip_commit),
            pipeline.skip_commit == config.skip_commit,
            pipeline.num_partitioner_shards == config.num_executor_shards,
            pipeline.partitioner_config == config.partitioner_config,
            pipeline.allow_discards == config.allow_discards,
            pipeline.allow_aborts == config.allow_aborts,
            !config.delay_execution_start ==> pipeline.raw_block_bound == 50,
            config.delay_execution_start ==> (num_blocks matches Some(number) ==> {
                &&& pipeline.raw_block_bound >= 50
                &&& pipeline.raw_block_bound >= number + 1
                &&& pipeline.raw_block_bound == 50 || pipeline.raw_block_bound == number + 1
            }),
            !config.split_stages && !config.skip_commit ==> pipeline.ledger_update_bound == 3
                && pipeline.commit_bound == 3,
            config.split_stages || config.skip_commit ==> (num_blocks matches Some(number) ==> {
                &&& pipeline.ledger_update_bound >= 3
                &&& pipeline.ledger_update_bound >= number + 1
                &&& pipeline.ledger_update_bound == 3 || pipeline.ledger_update_bound == number + 1
                &&& pipeline.commit_bound == pipeline.ledger_update_bound
            }),
            config.async_partitioning ==> pipeline.executable_block_bound == Some(3usize) && pipeline.stages@
                == seq![
                Stage::BlockPartitioning,
                Stage::TxnExecutor,
                Stage::LedgerUpdate,
                Stage::TxnCommitter,
            ],
            !config.async_partitioning ==> pipeline.executable_block_bound is None && pipeline.stages@
                == seq![Stage::TxnPartitionerExecutor, Stage::LedgerUpdate, Stage::TxnCommitter],
    {
        let commit_waits = config.split_stages || config.skip_commit;
        let stages: Vec<Stage> = if config.async_partitioning {
            vec![
                Stage::BlockPartitioning,
                Stage::TxnExecutor,
                Stage::LedgerUpdate,
                Stage::TxnCommitter,
            ]
        } else {
            vec![Stage::TxnPartitionerExecutor, Stage::LedgerUpdate, Stage::TxnCommitter]
        };
        assert(stages@ =~= stages_of(config.async_partitioning));
        Pipeline {
            raw_block_bound: bound(config.delay_execution_start, num_blocks, MIN_RAW_BLOCKS),
            executable_block_bound: if config.async_partitioning {
                Some(MIN_MESSAGES)
            } else {
                None
            },
            ledger_update_bound: bound(commit_waits, num_blocks, MIN_MESSAGES),
            commit_bound: bound(commit_waits, num_blocks, MIN_MESSAGES),
            execution_waits: config.delay_execution_start,
            commit_waits,
            skip_commit: config.skip_commit,
            num_partitioner_shards: config.num_executor_shards,
            partitioner_config: config.partitioner_config,
            allow_discards: config.allow_discards,
            allow_aborts: config.allow_aborts,
            stages,
        }
    }

    /// Returns whether a signal is to be sent for execution to start.
    pub fn start_execution(&self) -> (signal: bool)
        ensures
            signal == self.execution_waits,
    {
        self.execution_waits
    }

    /// Returns the stages whose threads are to be joined, in the order in
    /// which that is to be done.
    pub fn join(self) -> (stages: Vec<Stage>)
        ensures
            stages@ == self.stages@,
    {
        self.stages
    }
}

/// A pipeline is set up as the configuration says: each setting goes where it
/// belongs, the signals are those of the stages which are to wait, and a queue
/// holds more than its usual number of messages only if blocks pile up in it:
/// then all of them and one more.
pub proof fn law_setup_follows_the_configuration<P>(
    pipeline: Pipeline<P>,
    config: PipelineConfig<P>,
    num_blocks: Option<usize>,
)
    requires
        pipeline.is_for(config, num_blocks),
    ensures
        pipeline.execution_waits == config.delay_execution_start,
        pipeline.commit_waits == (config.split_stages || config.skip_commit),
        pipeline.skip_commit == config.skip_commit,
        pipeline.num_partitioner_shards == config.num_executor_shards,
        pipeline.partitioner_config == config.partitioner_config,
        pipeline.allow_discards == config.allow_discards,
        pipeline.allow_aborts == config.allow_aborts,
        !config.delay_execution_start ==> pipeline.raw_block_bound == 50,
        config.delay_execution_start ==> (num_blocks matches Some(number) ==> {
            &&& pipeline.raw_block_bound >= 50
            &&& pipeline.raw_block_bound >= number + 1
            &&& pipeline.raw_block_bound == 50 || pipeline.raw_block_bound == number + 1
        }),
        !config.split_stages && !config.skip_commit ==> pipeline.ledger_update_bound == 3
            && pipeline.commit_bound == 3,
        config.split_stages || config.skip_commit ==> (num_blocks matches Some(number) ==> {
            &&& pipeline.ledger_update_bound >= 3
            &&& pipeline.ledger_update_bound >= number + 1
            &&& pipeline.ledger_update_bound == 3 || pipeline.ledger_update_bound == number + 1
            &&& pipeline.commit_bound == pipeline.ledger_update_bound
        }),
        config.async_partitioning ==> pipeline.executable_block_bound == Some(3usize) && pipeline.stages@
            == seq![
            Stage::BlockPartitioning,
            Stage::TxnExecutor,
            Stage::LedgerUpdate,
            Stage::TxnCommitter,
        ],
        !config.async_partitioning ==> pipeline.executable_block_bound is None && pipeline.stages@
            == seq![Stage::TxnPartitionerExecutor, Stage::LedgerUpdate, Stage::TxnCommitter],
{
}

/// The number of blocks has to be known exactly if execution is delayed, if the
/// stages are split or if nothing is committed.
pub proof fn law_number_of_blocks_is_needed_to_wait<P>(config: PipelineConfig<P>)
    ensures
        config.blocks_pile_up() <==> config.delay_execution_start || config.split_stages
            || config.skip_commit,
{
}

/// All blocks fit into a queue in which they pile up, so that the stage before
/// it is never blocked by one after it which waits for a signal.
pub proof fn law_waiting_blocks_fit<P>(
    pipeline: Pipeline<P>,
    config: PipelineConfig<P>,
    num_blocks: usize,
)
    requires
        pipeline.is_for(config, Some(num_blocks)),
    ensures
        pipeline.execution_waits ==> pipeline.raw_block_bound > num_blocks,
        pipeline.commit_waits ==> pipeline.ledger_update_bound > num_blocks,
        pipeline.commit_waits ==> pipeline.commit_bound > num_blocks,
        pipeline.raw_block_bound >= MIN_RAW_BLOCKS,
        pipeline.ledger_update_bound >= MIN_MESSAGES,
        pipeline.commit_bound >= MIN_MESSAGES,
{
}

/// Every pipeline executes, updates the ledger and commits, in this order, on
/// one thread each. If blocks are partitioned on a thread of its own, that
/// comes first.
pub proof fn law_stages_are_complete<P>(
    pipeline: Pipeline<P>,
    config: PipelineConfig<P>,
    num_blocks: Option<usize>,
)
    requires
        pipeline.is_for(config, num_blocks),
    ensures
        ({
            let count = pipeline.stages@.len() as int;
            &&& count == if config.async_partitioning {
                4int
            } else {
                3
            }
            &&& pipeline.stages@[count - 1] == Stage::TxnCommitter
            &&& pipeline.stages@[count - 2] == Stage::LedgerUpdate
            &&& pipeline.stages@[count - 3] == if config.async_partitioning {
                Stage::TxnExecutor
            } else {
                Stage::TxnPartitionerExecutor
            }
            &&& config.async_partitioning ==> pipeline.stages@[0] == Stage::BlockPartitioning
            &&& pipeline.stages@.no_duplicates()
        }),
{
}

/// Every block is partitioned by one stage, the first, and executed by one
/// stage. There is a queue between the two exactly if they are not the same.
/// The partitioner is set up as the configuration says.
pub proof fn law_one_stage_partitions_and_one_executes<P>(
    pipeline: Pipeline<P>,
    config: PipelineConfig<P>,
    num_blocks: Option<usize>,
)
    requires
        pipeline.is_for(config, num_blocks),
    ensures
        forall|i: int|
            0 <= i < pipeline.stages@.len() ==> ((#[trigger] pipeline.stages@[i]).partitions()
                <==> i == 0),
        forall|i: int|
            0 <= i < pipeline.stages@.len() ==> ((#[trigger] pipeline.stages@[i]).executes()
                <==> i == pipeline.stages@.len() - 3),
        pipeline.executable_block_bound is Some <==> !pipeline.stages@[0].executes(),
        pipeline.num_partitioner_shards == config.num_executor_shards,
        pipeline.partitioner_config == config.partitioner_config,
{
}

} // verus!
