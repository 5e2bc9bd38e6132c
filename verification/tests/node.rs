use aptos_core::checkpoint::{
    CheckpointError, CheckpointEvent, CheckpointStep, Cmd, ShardingConfig,
};
use aptos_core::data_client::Error;
use aptos_core::pipeline::commit::{CommitAction, CommitStage};
use aptos_core::pipeline::execution::{ExecutionAction, ExecutionEvent, ExecutionStage};
use aptos_core::pipeline::layout::{Pipeline, PipelineConfig, Stage};

fn config() -> PipelineConfig<()> {
    PipelineConfig {
        delay_execution_start: false,
        split_stages: false,
        skip_commit: false,
        allow_discards: false,
        allow_aborts: false,
        num_executor_shards: 4,
        async_partitioning: false,
        use_global_executor: false,
        partitioner_config: (),
    }
}

fn cmd() -> Cmd<u8, &'static str> {
    Cmd {
        db_dir: 1,
        output_dir: "out",
        sharding_config: ShardingConfig {
            use_sharded_state_merkle_db: true,
            split_ledger_db: false,
        },
    }
}

#[test]
fn plain_pipeline_has_short_queues() {
    let pipeline = Pipeline::new(&config(), None);
    assert_eq!(pipeline.raw_block_bound, 50);
    assert_eq!(pipeline.executable_block_bound, None);
    assert_eq!(pipeline.ledger_update_bound, 3);
    assert_eq!(pipeline.commit_bound, 3);
    assert_eq!(pipeline.num_partitioner_shards, 4);
    assert!(!pipeline.start_execution());
    assert!(!pipeline.commit_waits);
    assert_eq!(
        pipeline.join(),
        vec![Stage::TxnPartitionerExecutor, Stage::LedgerUpdate, Stage::TxnCommitter]
    );
}

#[test]
fn delayed_pipeline_has_room_for_all_blocks() {
    let mut delayed = config();
    delayed.delay_execution_start = true;
    assert_eq!(Pipeline::new(&delayed, Some(10)).raw_block_bound, 50);
    let pipeline = Pipeline::new(&delayed, Some(100));
    assert_eq!(pipeline.raw_block_bound, 101);
    assert_eq!(pipeline.ledger_update_bound, 3);
    assert_eq!(pipeline.commit_bound, 3);
    assert!(pipeline.start_execution());
    assert!(!pipeline.commit_waits);
}

#[test]
fn split_pipeline_has_room_for_all_messages() {
    for (split_stages, skip_commit) in [(true, false), (false, true), (true, true)] {
        let mut split = config();
        split.split_stages = split_stages;
        split.skip_commit = skip_commit;
        let pipeline = Pipeline::new(&split, Some(100));
        assert_eq!(pipeline.raw_block_bound, 50);
        assert_eq!(pipeline.ledger_update_bound, 101);
        assert_eq!(pipeline.commit_bound, 101);
        assert!(pipeline.commit_waits);
        assert!(!pipeline.start_execution());
        assert_eq!(Pipeline::new(&split, Some(1)).commit_bound, 3);
    }
}

#[test]
fn partitioning_may_have_its_own_thread() {
    let mut partitioned = config();
    partitioned.async_partitioning = true;
    let pipeline = Pipeline::new(&partitioned, None);
    assert_eq!(pipeline.executable_block_bound, Some(3));
    let names: Vec<&str> = pipeline.stages.iter().map(|stage| stage.name()).collect();
    assert_eq!(
        names,
        vec!["block_partitioning", "txn_executor", "ledger_update", "txn_committer"]
    );
    assert_eq!(Stage::TxnPartitionerExecutor.name(), "txn_partitioner_executor");
}

#[test]
fn partitioning_thread_changes_nothing_else() {
    for delay in [false, true] {
        for split in [false, true] {
            let mut together = PipelineConfig {
                delay_execution_start: delay,
                split_stages: split,
                skip_commit: false,
                allow_discards: true,
                allow_aborts: false,
                num_executor_shards: 4,
                async_partitioning: false,
                use_global_executor: false,
                partitioner_config: 9u8,
            };
            let a = Pipeline::new(&together, Some(70));
            together.async_partitioning = true;
            let b = Pipeline::new(&together, Some(70));
            assert_eq!(a.raw_block_bound, b.raw_block_bound);
            assert_eq!(a.ledger_update_bound, b.ledger_update_bound);
            assert_eq!(a.commit_bound, b.commit_bound);
            assert_eq!(a.execution_waits, b.execution_waits);
            assert_eq!(a.commit_waits, b.commit_waits);
            assert_eq!(a.skip_commit, b.skip_commit);
            assert_eq!((a.num_partitioner_shards, b.num_partitioner_shards), (4, 4));
            assert_eq!((a.partitioner_config, b.partitioner_config), (9, 9));
            assert_eq!(a.allow_discards, b.allow_discards);
            assert_eq!(a.allow_aborts, b.allow_aborts);
            assert_eq!(ExecutionStage::start(&a), ExecutionStage::start(&b));
            for pipeline in [a, b] {
                let (mut stage, _) = ExecutionStage::start(&pipeline);
                if delay {
                    assert_eq!(stage.step(ExecutionEvent::Started), ExecutionAction::AwaitBlock);
                }
                for size in [3, 0, 8] {
                    let action = stage.step(ExecutionEvent::Received(size));
                    assert_eq!(action, ExecutionAction::ExecuteBlock);
                }
                assert_eq!(
                    stage.step(ExecutionEvent::Disconnected),
                    ExecutionAction::Finish { executed: 11, start_commit: split }
                );
            }
        }
    }
}

#[test]
fn execution_counts_transactions() {
    let (mut stage, action) = ExecutionStage::start(&Pipeline::new(&config(), None));
    assert_eq!(action, ExecutionAction::AwaitBlock);
    assert_eq!(stage.step(ExecutionEvent::Received(5)), ExecutionAction::ExecuteBlock);
    assert_eq!(stage.step(ExecutionEvent::Received(7)), ExecutionAction::ExecuteBlock);
    assert_eq!(
        stage.step(ExecutionEvent::Disconnected),
        ExecutionAction::Finish { executed: 12, start_commit: false }
    );
}

#[test]
fn execution_waits_for_the_start_and_starts_commit() {
    let mut waiting = config();
    waiting.delay_execution_start = true;
    waiting.split_stages = true;
    let (mut stage, action) = ExecutionStage::start(&Pipeline::new(&waiting, Some(2)));
    assert_eq!(action, ExecutionAction::AwaitStart);
    assert_eq!(stage.step(ExecutionEvent::Started), ExecutionAction::AwaitBlock);
    assert_eq!(
        stage.step(ExecutionEvent::Disconnected),
        ExecutionAction::Finish { executed: 0, start_commit: true }
    );
}

#[test]
fn commit_waits_or_stops() {
    let stage = CommitStage::start(&Pipeline::new(&config(), None));
    assert_eq!(stage.action(), CommitAction::Commit);

    let mut split = config();
    split.split_stages = true;
    let mut stage = CommitStage::start(&Pipeline::new(&split, Some(2)));
    assert_eq!(stage.action(), CommitAction::AwaitExecution);
    stage.execution_done();
    assert_eq!(stage.action(), CommitAction::Commit);

    let mut skipped = config();
    skipped.skip_commit = true;
    let mut stage = CommitStage::start(&Pipeline::new(&skipped, Some(2)));
    assert_eq!(stage.action(), CommitAction::AwaitExecution);
    stage.execution_done();
    assert_eq!(stage.action(), CommitAction::Stop);
}

#[test]
fn errors_have_labels_and_texts() {
    let errors = [
        (
            Error::DataIsUnavailable("x".to_string()),
            "data_is_unavailable",
            "The requested data is unavailable and cannot be found! Error: x",
        ),
        (
            Error::DataIsTooLarge("x".to_string()),
            "data_is_too_large",
            "The requested data is too large: x",
        ),
        (Error::InvalidRequest("x".to_string()), "invalid_request", "Invalid request: x"),
        (Error::InvalidResponse("x".to_string()), "invalid_response", "Invalid response: x"),
        (
            Error::TimeoutWaitingForResponse("x".to_string()),
            "timeout_waiting_for_response",
            "Timed out waiting for a response: x",
        ),
        (
            Error::UnexpectedErrorEncountered("x".to_string()),
            "unexpected_error_encountered",
            "Unexpected error encountered: x",
        ),
    ];
    for (error, label, text) in errors {
        assert_eq!(error.get_label(), label);
        assert_eq!(error.to_string(), text);
        assert_eq!(error.is_timeout(), label == "timeout_waiting_for_response");
    }
}

#[test]
fn errors_come_from_other_failures() {
    assert_eq!(
        Error::from_client_failure("down".to_string()),
        Error::UnexpectedErrorEncountered("down".to_string())
    );
    assert_eq!(
        Error::from_response_failure("bad".to_string()),
        Error::InvalidResponse("bad".to_string())
    );
}

#[test]
fn checkpoint_is_made_in_a_new_directory() {
    let step: CheckpointStep<u8, &str, String> = cmd().run();
    assert!(matches!(&step, CheckpointStep::FindOutputDir(cmd) if cmd.output_dir == "out"));
    let step = step.after(CheckpointEvent::OutputDirFound(false));
    assert!(matches!(&step, CheckpointStep::CreateOutputDir(cmd) if cmd.output_dir == "out"));
    let step = step.after(CheckpointEvent::OutputDirCreated(Ok(())));
    assert!(matches!(
        &step,
        CheckpointStep::CreateCheckpoint {
            db_dir: 1,
            output_dir: "out",
            use_sharded_state_merkle_db: true,
            split_ledger_db: false,
        }
    ));
    let step = step.after(CheckpointEvent::CheckpointCreated(Ok(())));
    assert!(matches!(step, CheckpointStep::Finished(Ok(()))));
}

#[test]
fn checkpoint_fails_with_the_first_failure() {
    let step: CheckpointStep<u8, &str, String> = cmd().run();
    match step.after(CheckpointEvent::OutputDirFound(true)) {
        CheckpointStep::Finished(Err(error)) => {
            assert_eq!(error.message(), Some("Output dir already exists."))
        },
        other => panic!("{:?}", other),
    }

    let step: CheckpointStep<u8, &str, String> = cmd().run();
    let step = step.after(CheckpointEvent::OutputDirFound(false));
    let step = step.after(CheckpointEvent::OutputDirCreated(Err("full".to_string())));
    match step {
        CheckpointStep::Finished(Err(error)) => {
            assert_eq!(error.message(), None);
            assert!(matches!(error, CheckpointError::Failed(reason) if reason == "full"));
        },
        other => panic!("{:?}", other),
    }

    let step: CheckpointStep<u8, &str, String> = cmd().run();
    let step = step.after(CheckpointEvent::OutputDirFound(false));
    let step = step.after(CheckpointEvent::OutputDirCreated(Ok(())));
    let step = step.after(CheckpointEvent::CheckpointCreated(Err("lost".to_string())));
    match step {
        CheckpointStep::Finished(Err(CheckpointError::Failed(reason))) => {
            assert_eq!(reason, "lost")
        },
        other => panic!("{:?}", other),
    }
}
