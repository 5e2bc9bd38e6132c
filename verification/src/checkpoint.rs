//! Making a checkpoint of a database in a directory which does not exist yet.
use vstd::prelude::*;

verus! {

/// How a database is split up.
#[derive(Clone, Copy, Debug, PartialEq, Eq, Structural)]
pub struct ShardingConfig {
    pub use_sharded_state_merkle_db: bool,
    pub split_ledger_db: bool,
}

/// The command which makes a checkpoint. `D` says where the database is, `P`
/// is a path.
#[derive(Debug)]
pub struct Cmd<D, P> {
    pub db_dir: D,
    pub output_dir: P,
    pub sharding_config: ShardingConfig,
}

/// Why no checkpoint was made.
#[derive(Debug)]
pub enum CheckpointError<E> {
    /// The directory for the checkpoint exists already.
    OutputDirExists,
    /// The file system or the database has failed.
    Failed(E),
}

/// What happens while a checkpoint is made.
#[derive(Debug)]
pub enum CheckpointEvent<E> {
    /// Whether the directory exists.
    OutputDirFound(bool),
    /// How the creation of the directory has ended.
    OutputDirCreated(Result<(), E>),
    /// How the creation of the checkpoint has ended.
    CheckpointCreated(Result<(), E>),
}

/// What is to be done next for a checkpoint.
#[derive(Debug)]
pub enum CheckpointStep<D, P, E> {
    /// Find out whether the directory of the command exists.
    FindOutputDir(Cmd<D, P>),
    /// Create the directory of the command, and those above it.
    CreateOutputDir(Cmd<D, P>),
    /// Create the checkpoint.
    CreateCheckpoint {
        db_dir: D,
        output_dir: P,
        use_sharded_state_merkle_db: bool,
        split_ledger_db: bool,
    },
    /// Nothing: this is the outcome.
    Finished(Result<(), CheckpointError<E>>),
}

impl<D, P, E> CheckpointStep<D, P, E> {
    /// Whether the event is the one which the step leads to.
    pub open spec fn expects(self, event: CheckpointEvent<E>) -> bool {
        match self {
            CheckpointStep::FindOutputDir(_) => event is OutputDirFound,
            CheckpointStep::CreateOutputDir(_) => event is OutputDirCreated,
            CheckpointStep::CreateCheckpoint { .. } => event is CheckpointCreated,
            CheckpointStep::Finished(_) => false,
        }
    }

    /// What is to be done after the event to which the step has led.
    pub open spec fn next(self, event: CheckpointEvent<E>) -> CheckpointStep<D, P, E> {
        match (self, event) {
            (
                CheckpointStep::FindOutputDir(cmd),
                CheckpointEvent::OutputDirFound(exists_already),
            ) => if exists_already {
                CheckpointStep::Finished(Err(CheckpointError::OutputDirExists))
            } else {
                CheckpointStep::CreateOutputDir(cmd)
            },
            (
                CheckpointStep::CreateOutputDir(cmd),
                CheckpointEvent::OutputDirCreated(result),
            ) => match result {
                Ok(_) => CheckpointStep::CreateCheckpoint {
                    db_dir: cmd.db_dir,
                    output_dir: cmd.output_dir,
                    use_sharded_state_merkle_db: cmd.sharding_config.use_sharded_state_merkle_db,
                    split_ledger_db: cmd.sharding_config.split_ledger_db,
                },
                Err(error) => CheckpointStep::Finished(Err(CheckpointError::Failed(error))),
            },
            (
                CheckpointStep::CreateCheckpoint { .. },
                CheckpointEvent::CheckpointCreated(result),
            ) => CheckpointStep::Finished(
                match result {
                    Ok(_) => Ok(()),
                    Err(error) => Err(CheckpointError::Failed(error)),
                },
            ),
            _ => self,
        }
    }
}

impl<D, P> Cmd<D, P> {
    /// Returns what is to be done first.
    pub fn run<E>(self) -> (step: CheckpointStep<D, P, E>)
        ensures
            step == CheckpointStep::<D, P, E>::FindOutputDir(self),
    {
        CheckpointStep::FindOutputDir(self)
    }
}

impl<E> CheckpointError<E> {
    /// Returns the text of the error, unless it comes from the file system or
    /// the database.
    pub fn message(&self) -> (text: Option<&'static str>)
        ensures
            match text {
                Some(found) => *self is OutputDirExists && found@ == "Output dir already exists."@,
                None => *self is Failed,
            },
    {
        match self {
            CheckpointError::OutputDirExists => Some("Output dir already exists."),
            CheckpointError::Failed(_) => None,
        }
    }
}

impl<D, P, E> CheckpointStep<D, P, E> {
    /// Returns what is to be done after the event to which the step has led.
    pub fn after(self, event: CheckpointEvent<E>) -> (step: CheckpointStep<D, P, E>)
        requires
            self.expects(event),
        ensures
            step == self.next(event),
            self matches CheckpointStep::FindOutputDir(cmd) ==> (event matches
                CheckpointEvent::OutputDirFound(found) && if found {
                step matches CheckpointStep::Finished(Err(CheckpointError::OutputDirExists))
            } else {
                step matches CheckpointStep::CreateOutputDir(next) && next.db_dir == cmd.db_dir
                    && next.output_dir == cmd.output_dir && next.sharding_config
                    == cmd.sharding_config
            }),
            self matches CheckpointStep::CreateOutputDir(cmd) ==> (event matches
                CheckpointEvent::OutputDirCreated(created) && match created {
                Ok(_) => step matches CheckpointStep::CreateCheckpoint {
                    db_dir,
                    output_dir,
                    use_sharded_state_merkle_db,
                    split_ledger_db,
                } && db_dir == cmd.db_dir && output_dir == cmd.output_dir
                    && use_sharded_state_merkle_db
                    == cmd.sharding_config.use_sharded_state_merkle_db && split_ledger_db
                    == cmd.sharding_config.split_ledger_db,
                Err(error) => step matches CheckpointStep::Finished(
                    Err(CheckpointError::Failed(failure)),
                ) && failure == error,
            }),
            self is CreateCheckpoint ==> (event matches CheckpointEvent::CheckpointCreated(done)
                && match done {
                Ok(_) => step matches CheckpointStep::Finished(Ok(_)),
                Err(error) => step matches CheckpointStep::Finished(
                    Err(CheckpointError::Failed(failure)),
                ) && failure == error,
            }),
    {
        match (self, event) {
            (
                CheckpointStep::FindOutputDir(cmd),
                CheckpointEvent::OutputDirFound(exists_already),
            ) => if exists_already {
                CheckpointStep::Finished(Err(CheckpointError::OutputDirExists))
            } else {
                CheckpointStep::CreateOutputDir(cmd)
            },
            (
                CheckpointStep::CreateOutputDir(cmd),
                CheckpointEvent::OutputDirCreated(result),
            ) => match result {
                Ok(_) => CheckpointStep::CreateCheckpoint {
                    db_dir: cmd.db_dir,
                    output_dir: cmd.output_dir,
                    use_sharded_state_merkle_db: cmd.sharding_config.use_sharded_state_merkle_db,
                    split_ledger_db: cmd.sharding_config.split_ledger_db,
                },
                Err(error) => CheckpointStep::Finished(Err(CheckpointError::Failed(error))),
            },
            (
                CheckpointStep::CreateCheckpoint { .. },
                CheckpointEvent::CheckpointCreated(result),
            ) => CheckpointStep::Finished(
                match result {
                    Ok(_) => Ok(()),
                    Err(error) => Err(CheckpointError::Failed(error)),
                },
            ),
            (step, _) => step,
        }
    }
}

/// The checkpoint is created only in a directory which did not exist and which
/// was then created. The outcome is the first failure on the way, if there is
/// one.
pub proof fn law_first_failure_is_the_outcome<D, P, E>(
    cmd: Cmd<D, P>,
    exists_already: bool,
    created: Result<(), E>,
    done: Result<(), E>,
)
    ensures
        ({
            let find = CheckpointStep::<D, P, E>::FindOutputDir(cmd);
            let create = find.next(CheckpointEvent::OutputDirFound(exists_already));
            let make = create.next(CheckpointEvent::OutputDirCreated(created));
            let end = make.next(CheckpointEvent::CheckpointCreated(done));
            &&& create == if exists_already {
                CheckpointStep::Finished(Err(CheckpointError::<E>::OutputDirExists))
            } else {
                CheckpointStep::CreateOutputDir(cmd)
            }
            &&& make is CreateCheckpoint <==> !exists_already && created is Ok
            &&& end == CheckpointStep::<D, P, E>::Finished(
                if exists_already {
                    Err(CheckpointError::OutputDirExists)
                } else if created is Err {
                    Err(CheckpointError::Failed(created->Err_0))
                } else if done is Err {
                    Err(CheckpointError::Failed(done->Err_0))
                } else {
                    Ok(())
                },
            )
        }),
{
}

/// The checkpoint is asked for with the database, the directory and the two
/// settings which the command names, each as it is; nothing that was found on
/// the way changes them.
pub proof fn law_checkpoint_is_the_one_of_the_command<D, P, E>(cmd: Cmd<D, P>)
    ensures
        CheckpointStep::<D, P, E>::FindOutputDir(cmd).next(
            CheckpointEvent::OutputDirFound(false),
        ).next(CheckpointEvent::OutputDirCreated(Ok(()))) matches CheckpointStep::CreateCheckpoint {
            db_dir,
            output_dir,
            use_sharded_state_merkle_db,
            split_ledger_db,
        } && db_dir == cmd.db_dir && output_dir == cmd.output_dir && use_sharded_state_merkle_db
            == cmd.sharding_config.use_sharded_state_merkle_db && split_ledger_db
            == cmd.sharding_config.split_ledger_db,
{
}

/// Each step leads to one kind of event, and the outcome to none.
pub proof fn law_steps_lead_to_their_events<D, P, E>(
    step: CheckpointStep<D, P, E>,
    event: CheckpointEvent<E>,
)
    ensures
        step is FindOutputDir ==> (step.expects(event) <==> event is OutputDirFound),
        step is CreateOutputDir ==> (step.expects(event) <==> event is OutputDirCreated),
        step is CreateCheckpoint ==> (step.expects(event) <==> event is CheckpointCreated),
        step is Finished ==> !step.expects(event),
{
}

} // verus!
