//! The migration engine: what to ask of the target database next, given
//! what has come back so far.
//!
//! The engine performs no database work itself. A run names one command at
//! a time; whoever drives it carries the command out against the open
//! target connection and reports the result as an event.

use crate::ledger::{pending_versions, Ledger};
use crate::migration::{
    arrange, first_defect, has_version, versions_of, Defect, Migration, MigrationSource,
};
use vstd::prelude::*;

verus! {

/// The ledger's backing relation could not be used.
#[derive(Debug, Clone, PartialEq, Eq)]
pub enum LedgerError<C> {
    /// Making sure that the relation exists failed.
    Storage(C),
    /// Listing the applied versions failed.
    Listing(C),
}

/// The migration source could not be turned into an ordered sequence.
#[derive(Debug, Clone, PartialEq, Eq)]
pub enum DiscoveryError<C> {
    /// The location could not be read, or a file name gave no version.
    Unreadable(C),
    /// The migrations were read but do not form a source.
    Malformed(Defect),
}

/// One migration failed and was rolled back.
#[derive(Debug, Clone, PartialEq, Eq)]
pub struct ApplicationError<C> {
    /// The version whose statements failed.
    pub version: i64,
    /// How many migrations this run had committed before.
    pub applied: usize,
    /// What the database reported.
    pub cause: C,
}

/// Why a run ended without applying everything that was pending.
#[derive(Debug, Clone, PartialEq, Eq)]
pub enum MigrateError<C> {
    Ledger(LedgerError<C>),
    Discovery(DiscoveryError<C>),
    Application(ApplicationError<C>),
}

/// What the driver is to do next.
#[derive(Debug, Clone, Copy, PartialEq, Eq, Structural)]
pub enum Command {
    /// Create the ledger's backing relation if it is absent.
    EnsureStorage,
    /// Read the migrations from their location.
    Discover,
    /// List the versions that the ledger holds.
    ListApplied,
    /// In one transaction, run the statements of this version and record
    /// it in the ledger; commit, or roll back on any failure.
    Apply { version: i64 },
}

/// What came back from carrying out a command.
#[derive(Debug)]
pub enum Event<C> {
    /// `EnsureStorage` succeeded, or `Apply` committed.
    Completed,
    /// `Discover` found these migrations, in any order.
    Discovered(Vec<Migration>),
    /// `ListApplied` returned these versions.
    Listed(Vec<i64>),
    /// The command failed; for `Apply`, the transaction was rolled back.
    Failed(C),
}

/// An event, with its lists as sequences.
pub enum EventView<C> {
    Completed,
    Discovered(Seq<Migration>),
    Listed(Seq<i64>),
    Failed(C),
}

impl<C> View for Event<C> {
    type V = EventView<C>;

    open spec fn view(&self) -> EventView<C> {
        match *self {
            Event::Completed => EventView::Completed,
            Event::Discovered(found) => EventView::Discovered(found@),
            Event::Listed(listing) => EventView::Listed(listing@),
            Event::Failed(cause) => EventView::Failed(cause),
        }
    }
}

/// Where a run stands.
#[verifier::ext_equal]
pub enum RunState {
    /// Waiting for the ledger's storage to be ensured.
    EnsuringStorage,
    /// Waiting for the migrations to be discovered.
    Discovering,
    /// Waiting for the applied versions; `source` is in ascending order.
    Listing { source: Seq<Migration> },
    /// Waiting for `pending[committed]` to be applied.
    Applying { source: Seq<Migration>, pending: Seq<i64>, committed: nat },
}

/// A run after one event: still going, or over with its result.
#[verifier::ext_equal]
pub enum Progress<C> {
    Continue(RunState),
    Done(Result<usize, MigrateError<C>>),
}

/// The command that a run in `state` waits on.
pub open spec fn awaited(state: RunState) -> Command {
    match state {
        RunState::EnsuringStorage => Command::EnsureStorage,
        RunState::Discovering => Command::Discover,
        RunState::Listing { .. } => Command::ListApplied,
        RunState::Applying { pending, committed, .. } => Command::Apply {
            version: pending[committed as int],
        },
    }
}

/// The engine's rule: the state a run moves to, or the result it ends
/// with, when `event` arrives in `state`.
///
/// Storage is ensured first, then the migrations are discovered and put in
/// ascending order, then the applied versions are listed. What is pending
/// is applied one at a time in that order; the first failure ends the run
/// with the failing version and the number committed before it. An event
/// that does not answer the awaited command leaves the run where it is.
pub open spec fn next<C>(state: RunState, event: EventView<C>) -> Progress<C> {
    match (state, event) {
        (RunState::EnsuringStorage, EventView::Completed) => Progress::Continue(
            RunState::Discovering,
        ),
        (RunState::EnsuringStorage, EventView::Failed(cause)) => Progress::Done(
            Err(MigrateError::Ledger(LedgerError::Storage(cause))),
        ),
        (RunState::Discovering, EventView::Discovered(found)) => match first_defect(found) {
            Some(defect) => Progress::Done(
                Err(MigrateError::Discovery(DiscoveryError::Malformed(defect))),
            ),
            None => Progress::Continue(RunState::Listing { source: arrange(found) }),
        },
        (RunState::Discovering, EventView::Failed(cause)) => Progress::Done(
            Err(MigrateError::Discovery(DiscoveryError::Unreadable(cause))),
        ),
        (RunState::Listing { source }, EventView::Listed(listing)) => {
            let pending = pending_versions(versions_of(source), listing.to_set());
            if pending.len() == 0 {
                Progress::Done(Ok(0))
            } else {
                Progress::Continue(RunState::Applying { source, pending, committed: 0 })
            }
        },
        (RunState::Listing { .. }, EventView::Failed(cause)) => Progress::Done(
            Err(MigrateError::Ledger(LedgerError::Listing(cause))),
        ),
        (RunState::Applying { source, pending, committed }, EventView::Completed) => {
            if committed + 1 == pending.len() {
                Progress::Done(Ok((committed + 1) as usize))
            } else {
                Progress::Continue(
                    RunState::Applying { source, pending, committed: committed + 1 },
                )
            }
        },
        (RunState::Applying { pending, committed, .. }, EventView::Failed(cause)) => {
            Progress::Done(
                Err(
                    MigrateError::Application(
                        ApplicationError {
                            version: pending[committed as int],
                            applied: committed as usize,
                            cause,
                        },
                    ),
                ),
            )
        },
        (state, _) => Progress::Continue(state),
    }
}

#[derive(Debug)]
enum Phase {
    EnsuringStorage,
    Discovering,
    Listing { source: MigrationSource },
    Applying { source: MigrationSource, pending: Vec<i64>, committed: usize },
}

/// One run of the engine against one target database.
#[derive(Debug)]
pub struct MigrationRun {
    phase: Phase,
}

impl View for MigrationRun {
    type V = RunState;

    closed spec fn view(&self) -> RunState {
        match self.phase {
            Phase::EnsuringStorage => RunState::EnsuringStorage,
            Phase::Discovering => RunState::Discovering,
            Phase::Listing { source } => RunState::Listing { source: source@ },
            Phase::Applying { source, pending, committed } => RunState::Applying {
                source: source@,
                pending: pending@,
                committed: committed as nat,
            },
        }
    }
}

/// A run after one event: still going, or over with its result.
#[derive(Debug)]
pub enum Transition<C> {
    Continue(MigrationRun),
    Done(Result<usize, MigrateError<C>>),
}

impl<C> View for Transition<C> {
    type V = Progress<C>;

    open spec fn view(&self) -> Progress<C> {
        match *self {
            Transition::Continue(run) => Progress::Continue(run@),
            Transition::Done(outcome) => Progress::Done(outcome),
        }
    }
}

impl MigrationRun {
    #[verifier::type_invariant]
    spec fn in_range(self) -> bool {
        match self.phase {
            Phase::Applying { source, pending, committed } => {
                &&& committed < pending.len()
                &&& forall|i: int|
                    0 <= i < pending.len() ==> has_version(source@, #[trigger] pending@[i])
            },
            _ => true,
        }
    }

    /// A run that has asked for nothing yet.
    pub fn new() -> (run: MigrationRun)
        ensures
            run@ == RunState::EnsuringStorage,
    {
        MigrationRun { phase: Phase::EnsuringStorage }
    }

    /// The command that this run waits on.
    pub fn command(&self) -> (command: Command)
        ensures
            command == awaited(self@),
    {
        proof {
            use_type_invariant(self);
        }
        match &self.phase {
            Phase::EnsuringStorage => Command::EnsureStorage,
            Phase::Discovering => Command::Discover,
            Phase::Listing { .. } => Command::ListApplied,
            Phase::Applying { pending, committed, .. } => Command::Apply {
                version: pending[*committed],
            },
        }
    }

    /// The migration that the awaited command is to apply, where the run
    /// waits on one.
    pub fn migration(&self) -> (migration: Option<&Migration>)
        ensures
            match self@ {
                RunState::Applying { source, pending, committed } => {
                    &&& migration matches Some(awaited)
                    &&& awaited.version == pending[committed as int]
                    &&& source.contains(*awaited)
                },
                _ => migration is None,
            },
    {
        proof {
            use_type_invariant(self);
        }
        match &self.phase {
            Phase::Applying { source, pending, committed } => source.find(pending[*committed]),
            _ => None,
        }
    }

    /// Takes the result of the awaited command and moves on.
    pub fn step<C>(self, event: Event<C>) -> (transition: Transition<C>)
        ensures
            transition@ == next(self@, event@),
    {
        proof {
            use_type_invariant(&self);
        }
        match (self.phase, event) {
            (Phase::EnsuringStorage, Event::Completed) => Transition::Continue(
                MigrationRun { phase: Phase::Discovering },
            ),
            (Phase::EnsuringStorage, Event::Failed(cause)) => Transition::Done(
                Err(MigrateError::Ledger(LedgerError::Storage(cause))),
            ),
            (Phase::Discovering, Event::Discovered(found)) => {
                match MigrationSource::discover(found) {
                    Err(defect) => Transition::Done(
                        Err(MigrateError::Discovery(DiscoveryError::Malformed(defect))),
                    ),
                    Ok(source) => Transition::Continue(
                        MigrationRun { phase: Phase::Listing { source } },
                    ),
                }
            },
            (Phase::Discovering, Event::Failed(cause)) => Transition::Done(
                Err(MigrateError::Discovery(DiscoveryError::Unreadable(cause))),
            ),
            (Phase::Listing { source }, Event::Listed(listing)) => {
                let ledger = Ledger::from_listing(&listing);
                let pending = ledger.pending(&source);
                if pending.len() == 0 {
                    Transition::Done(Ok(0))
                } else {
                    Transition::Continue(
                        MigrationRun { phase: Phase::Applying { source, pending, committed: 0 } },
                    )
                }
            },
            (Phase::Listing { .. }, Event::Failed(cause)) => Transition::Done(
                Err(MigrateError::Ledger(LedgerError::Listing(cause))),
            ),
            (Phase::Applying { source, pending, committed }, Event::Completed) => {
                if committed + 1 == pending.len() {
                    Transition::Done(Ok(committed + 1))
                } else {
                    Transition::Continue(
                        MigrationRun {
                            phase: Phase::Applying { source, pending, committed: committed + 1 },
                        },
                    )
                }
            },
            (Phase::Applying { pending, committed, .. }, Event::Failed(cause)) => {
                Transition::Done(
                    Err(
                        MigrateError::Application(
                            ApplicationError { version: pending[committed], applied: committed, cause },
                        ),
                    ),
                )
            },
            (phase, _) => Transition::Continue(MigrationRun { phase }),
        }
    }
}

} // verus!
