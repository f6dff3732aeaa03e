//! Seeding: one batch of statements, applied to the target database as a
//! single transaction.
//!
//! As with the engine, a run names one command at a time and is told what
//! came of it. The batch itself never passes through here: it is executed
//! verbatim by whoever drives the run.

use vstd::prelude::*;

verus! {

/// What the driver is to do next.
#[derive(Debug, Clone, Copy, PartialEq, Eq, Structural)]
pub enum SeedCommand {
    /// Open a transaction on the target connection.
    Begin,
    /// Execute the whole batch inside the open transaction.
    Execute,
    /// Commit the open transaction.
    Commit,
    /// Roll the open transaction back.
    RollBack,
}

/// What came of a command.
#[derive(Debug, Clone, PartialEq, Eq)]
pub enum SeedEvent<C> {
    Completed,
    Failed(C),
}

/// The command that failed.
#[derive(Debug, Clone, Copy, PartialEq, Eq, Structural)]
pub enum SeedStage {
    Begin,
    Execute,
    Commit,
}

/// The batch was not applied; nothing of it remains in the database.
#[derive(Debug, Clone, PartialEq, Eq)]
pub struct SeedError<C> {
    /// The command that failed first.
    pub stage: SeedStage,
    /// What the database reported for it.
    pub cause: C,
}

/// A seeding run, by the command it waits on.
#[derive(Debug, Clone, PartialEq, Eq)]
pub enum SeedRun<C> {
    Beginning,
    Executing,
    Committing,
    /// The batch failed with `cause`; the transaction is being rolled back.
    RollingBack { cause: C },
}

/// A run after one event: still going, or over with its result.
#[derive(Debug, PartialEq, Eq)]
pub enum SeedTransition<C> {
    Continue(SeedRun<C>),
    Done(Result<(), SeedError<C>>),
}

/// The command that `run` waits on.
pub open spec fn seed_awaited<C>(run: SeedRun<C>) -> SeedCommand {
    match run {
        SeedRun::Beginning => SeedCommand::Begin,
        SeedRun::Executing => SeedCommand::Execute,
        SeedRun::Committing => SeedCommand::Commit,
        SeedRun::RollingBack { .. } => SeedCommand::RollBack,
    }
}

/// The seeding rule: begin, execute, commit, each only after the one
/// before it succeeded. A batch that fails is rolled back, never
/// committed, and the run then ends with the batch's failure whatever the
/// rollback reports.
pub open spec fn seed_next<C>(run: SeedRun<C>, event: SeedEvent<C>) -> SeedTransition<C> {
    match (run, event) {
        (SeedRun::Beginning, SeedEvent::Completed) => SeedTransition::Continue(SeedRun::Executing),
        (SeedRun::Beginning, SeedEvent::Failed(cause)) => SeedTransition::Done(
            Err(SeedError { stage: SeedStage::Begin, cause }),
        ),
        (SeedRun::Executing, SeedEvent::Completed) => SeedTransition::Continue(
            SeedRun::Committing,
        ),
        (SeedRun::Executing, SeedEvent::Failed(cause)) => SeedTransition::Continue(
            SeedRun::RollingBack { cause },
        ),
        (SeedRun::Committing, SeedEvent::Completed) => SeedTransition::Done(Ok(())),
        (SeedRun::Committing, SeedEvent::Failed(cause)) => SeedTransition::Done(
            Err(SeedError { stage: SeedStage::Commit, cause }),
        ),
        (SeedRun::RollingBack { cause }, _) => SeedTransition::Done(
            Err(SeedError { stage: SeedStage::Execute, cause }),
        ),
    }
}

impl<C> SeedRun<C> {
    /// A run that has asked for nothing yet.
    pub fn new() -> (run: SeedRun<C>)
        ensures
            run == SeedRun::<C>::Beginning,
    {
        SeedRun::Beginning
    }

    /// The command that this run waits on.
    pub fn command(&self) -> (command: SeedCommand)
        ensures
            command == seed_awaited(*self),
    {
        match self {
            SeedRun::Beginning => SeedCommand::Begin,
            SeedRun::Executing => SeedCommand::Execute,
            SeedRun::Committing => SeedCommand::Commit,
            SeedRun::RollingBack { .. } => SeedCommand::RollBack,
        }
    }

    /// Takes the result of the awaited command and moves on.
    pub fn step(self, event: SeedEvent<C>) -> (transition: SeedTransition<C>)
        ensures
            transition == seed_next(self, event),
    {
        match (self, event) {
            (SeedRun::Beginning, SeedEvent::Completed) => SeedTransition::Continue(
                SeedRun::Executing,
            ),
            (SeedRun::Beginning, SeedEvent::Failed(cause)) => SeedTransition::Done(
                Err(SeedError { stage: SeedStage::Begin, cause }),
            ),
            (SeedRun::Executing, SeedEvent::Completed) => SeedTransition::Continue(
                SeedRun::Committing,
            ),
            (SeedRun::Executing, SeedEvent::Failed(cause)) => SeedTransition::Continue(
                SeedRun::RollingBack { cause },
            ),
            (SeedRun::Committing, SeedEvent::Completed) => SeedTransition::Done(Ok(())),
            (SeedRun::Committing, SeedEvent::Failed(cause)) => SeedTransition::Done(
                Err(SeedError { stage: SeedStage::Commit, cause }),
            ),
            (SeedRun::RollingBack { cause }, _) => SeedTransition::Done(
                Err(SeedError { stage: SeedStage::Execute, cause }),
            ),
        }
    }
}

/// A model of the target database under seeding. Statements executed in a
/// transaction take effect only when it commits.
#[verifier::ext_equal]
pub struct SeedStore<C> {
    /// The statements whose effects the database holds, oldest first.
    pub committed: Seq<Seq<char>>,
    /// The statements executed in the open transaction, if one is open.
    pub staged: Option<Seq<Seq<char>>>,
    /// The statements of the seed batch, in order.
    pub batch: Seq<Seq<char>>,
    /// Why no transaction can be opened, if none can.
    pub begin_fault: Option<C>,
    /// The position of the statement of the batch that fails, if one does,
    /// with what the database reports for it.
    pub broken: Option<(int, C)>,
    /// Why the transaction cannot be committed, if it cannot.
    pub commit_fault: Option<C>,
}

/// Whether a statement of the batch of `store` fails.
pub open spec fn batch_fails<C>(store: SeedStore<C>) -> bool {
    store.broken matches Some((at, _)) && 0 <= at < store.batch.len()
}

/// The store after `command`, and the event that carrying it out gives.
pub open spec fn seed_carry_out<C>(store: SeedStore<C>, command: SeedCommand) -> (
    SeedStore<C>,
    SeedEvent<C>,
) {
    let open = match store.staged {
        Some(statements) => statements,
        None => Seq::empty(),
    };
    match command {
        SeedCommand::Begin => match store.begin_fault {
            Some(cause) => (store, SeedEvent::Failed(cause)),
            None => (SeedStore { staged: Some(Seq::empty()), ..store }, SeedEvent::Completed),
        },
        SeedCommand::Execute => if batch_fails(store) {
            let (at, cause) = store.broken->Some_0;
            (
                SeedStore { staged: Some(open + store.batch.take(at)), ..store },
                SeedEvent::Failed(cause),
            )
        } else {
            (SeedStore { staged: Some(open + store.batch), ..store }, SeedEvent::Completed)
        },
        SeedCommand::Commit => match store.commit_fault {
            Some(cause) => (SeedStore { staged: None, ..store }, SeedEvent::Failed(cause)),
            None => (
                SeedStore { committed: store.committed + open, staged: None, ..store },
                SeedEvent::Completed,
            ),
        },
        SeedCommand::RollBack => (SeedStore { staged: None, ..store }, SeedEvent::Completed),
    }
}

/// How a seeding run ended, and the store it left.
#[verifier::ext_equal]
pub struct SeedConclusion<C> {
    pub outcome: Result<(), SeedError<C>>,
    pub store: SeedStore<C>,
}

/// How many commands a run may still issue.
pub open spec fn seed_commands_ahead<C>(run: SeedRun<C>) -> nat {
    match run {
        SeedRun::Beginning => 3,
        SeedRun::Executing => 2,
        SeedRun::Committing => 1,
        SeedRun::RollingBack { .. } => 1,
    }
}

/// Runs the seeding rule from `run` against `store` until it ends.
pub open spec fn seed_drive<C>(run: SeedRun<C>, store: SeedStore<C>) -> SeedConclusion<C>
    decreases seed_commands_ahead(run),
{
    let (after, event) = seed_carry_out(store, seed_awaited(run));
    match seed_next(run, event) {
        SeedTransition::Done(outcome) => SeedConclusion { outcome, store: after },
        SeedTransition::Continue(following) => seed_drive(following, after),
    }
}

/// A seeding run is all or nothing. It leaves no transaction open. Where
/// it succeeds, the database holds what it held and the whole batch. Where
/// it fails, the database holds what it held before: a batch of which a
/// statement fails leaves nothing behind, not even the effects of the
/// statements before the failing one, and the run reports that statement's
/// failure.
pub proof fn law_seed_all_or_nothing<C>(store: SeedStore<C>)
    requires
        store.staged is None,
    ensures
        seed_drive(SeedRun::Beginning, store).store.staged is None,
        seed_drive(SeedRun::Beginning, store).outcome is Ok ==> seed_drive(
            SeedRun::Beginning,
            store,
        ).store.committed == store.committed + store.batch,
        seed_drive(SeedRun::Beginning, store).outcome is Err ==> seed_drive(
            SeedRun::Beginning,
            store,
        ).store.committed == store.committed,
        seed_drive(SeedRun::Beginning, store).outcome is Ok <==> store.begin_fault is None
            && !batch_fails(store) && store.commit_fault is None,
        store.begin_fault is None && batch_fails(store) ==> seed_drive(
            SeedRun::Beginning,
            store,
        ).outcome == Err::<(), SeedError<C>>(
            SeedError { stage: SeedStage::Execute, cause: store.broken->Some_0.1 },
        ),
{
    reveal_with_fuel(seed_drive, 4);
    let empty = Seq::<Seq<char>>::empty();
    assert(empty + store.batch =~= store.batch);
}

} // verus!
