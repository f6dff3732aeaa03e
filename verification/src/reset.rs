//! Reset: drop, create and migrate in sequence, each step only after the
//! one before it succeeded.
//!
//! Nothing is undone when a step fails. The sequence halts there and the
//! database stays in the state that the last successful step left.

use vstd::prelude::*;

verus! {

/// The steps of a reset, in the order in which they are taken.
#[derive(Debug, Clone, Copy, PartialEq, Eq, Structural)]
pub enum ResetStep {
    Drop,
    Create,
    Migrate,
}

/// What came of a step.
#[derive(Debug, PartialEq, Eq)]
pub enum ResetEvent<C> {
    /// The database of this name was dropped.
    Dropped(String),
    /// The database of this name was created.
    Created(String),
    /// This many migrations were newly applied.
    Migrated(usize),
    /// The step failed.
    Failed(C),
}

/// The reset halted at `step`; no later step was taken.
#[derive(Debug, Clone, PartialEq, Eq)]
pub struct ResetError<C> {
    /// The step that failed.
    pub step: ResetStep,
    /// Why it failed.
    pub cause: C,
}

/// A reset, by the step whose result it waits for.
#[derive(Debug, PartialEq, Eq)]
pub enum ResetRun {
    Dropping,
    Creating,
    /// `database` is the name under which the database was created.
    Migrating { database: String },
}

/// A reset after one event: still going, or over with its result.
#[derive(Debug, PartialEq, Eq)]
pub enum ResetTransition<C> {
    Continue(ResetRun),
    Done(Result<String, ResetError<C>>),
}

/// The step that `run` waits on.
pub open spec fn reset_awaited(run: ResetRun) -> ResetStep {
    match run {
        ResetRun::Dropping => ResetStep::Drop,
        ResetRun::Creating => ResetStep::Create,
        ResetRun::Migrating { .. } => ResetStep::Migrate,
    }
}

/// The reset rule. A step that succeeds leads to the next one, and the
/// last one to the name of the database that was created. A step that
/// fails ends the reset with that step and its failure. An event that does
/// not answer the awaited step leaves the reset where it is.
pub open spec fn reset_next<C>(run: ResetRun, event: ResetEvent<C>) -> ResetTransition<C> {
    match (run, event) {
        (ResetRun::Dropping, ResetEvent::Dropped(_)) => ResetTransition::Continue(
            ResetRun::Creating,
        ),
        (ResetRun::Dropping, ResetEvent::Failed(cause)) => ResetTransition::Done(
            Err(ResetError { step: ResetStep::Drop, cause }),
        ),
        (ResetRun::Creating, ResetEvent::Created(database)) => ResetTransition::Continue(
            ResetRun::Migrating { database },
        ),
        (ResetRun::Creating, ResetEvent::Failed(cause)) => ResetTransition::Done(
            Err(ResetError { step: ResetStep::Create, cause }),
        ),
        (ResetRun::Migrating { database }, ResetEvent::Migrated(_)) => ResetTransition::Done(
            Ok(database),
        ),
        (ResetRun::Migrating { .. }, ResetEvent::Failed(cause)) => ResetTransition::Done(
            Err(ResetError { step: ResetStep::Migrate, cause }),
        ),
        (run, _) => ResetTransition::Continue(run),
    }
}

impl ResetRun {
    /// A reset that has taken no step yet.
    pub fn new() -> (run: ResetRun)
        ensures
            run == ResetRun::Dropping,
    {
        ResetRun::Dropping
    }

    /// The step that this reset waits on.
    pub fn command(&self) -> (step: ResetStep)
        ensures
            step == reset_awaited(*self),
    {
        match self {
            ResetRun::Dropping => ResetStep::Drop,
            ResetRun::Creating => ResetStep::Create,
            ResetRun::Migrating { .. } => ResetStep::Migrate,
        }
    }

    /// Takes the result of the awaited step and moves on.
    pub fn step<C>(self, event: ResetEvent<C>) -> (transition: ResetTransition<C>)
        ensures
            transition == reset_next(self, event),
    {
        match (self, event) {
            (ResetRun::Dropping, ResetEvent::Dropped(_)) => ResetTransition::Continue(
                ResetRun::Creating,
            ),
            (ResetRun::Dropping, ResetEvent::Failed(cause)) => ResetTransition::Done(
                Err(ResetError { step: ResetStep::Drop, cause }),
            ),
            (ResetRun::Creating, ResetEvent::Created(database)) => ResetTransition::Continue(
                ResetRun::Migrating { database },
            ),
            (ResetRun::Creating, ResetEvent::Failed(cause)) => ResetTransition::Done(
                Err(ResetError { step: ResetStep::Create, cause }),
            ),
            (ResetRun::Migrating { database }, ResetEvent::Migrated(_)) => ResetTransition::Done(
                Ok(database),
            ),
            (ResetRun::Migrating { .. }, ResetEvent::Failed(cause)) => ResetTransition::Done(
                Err(ResetError { step: ResetStep::Migrate, cause }),
            ),
            (run, _) => ResetTransition::Continue(run),
        }
    }
}

/// What each step would give if it were taken.
pub struct ResetWorld<C> {
    pub drop: Result<String, C>,
    pub create: Result<String, C>,
    pub migrate: Result<usize, C>,
}

/// The event that taking `step` in `world` gives.
pub open spec fn reset_carry_out<C>(world: ResetWorld<C>, step: ResetStep) -> ResetEvent<C> {
    match step {
        ResetStep::Drop => match world.drop {
            Ok(database) => ResetEvent::Dropped(database),
            Err(cause) => ResetEvent::Failed(cause),
        },
        ResetStep::Create => match world.create {
            Ok(database) => ResetEvent::Created(database),
            Err(cause) => ResetEvent::Failed(cause),
        },
        ResetStep::Migrate => match world.migrate {
            Ok(count) => ResetEvent::Migrated(count),
            Err(cause) => ResetEvent::Failed(cause),
        },
    }
}

/// How a reset ended, and the steps that were taken on the way, in order.
#[verifier::ext_equal]
pub struct ResetConclusion<C> {
    pub outcome: Result<String, ResetError<C>>,
    pub taken: Seq<ResetStep>,
}

/// How many steps a reset may still take.
pub open spec fn reset_steps_ahead(run: ResetRun) -> nat {
    match run {
        ResetRun::Dropping => 3,
        ResetRun::Creating => 2,
        ResetRun::Migrating { .. } => 1,
    }
}

/// Runs the reset rule from `run` in `world` until it ends, adding each
/// step it takes to `taken`.
pub open spec fn reset_drive<C>(run: ResetRun, world: ResetWorld<C>, taken: Seq<ResetStep>)
    -> ResetConclusion<C>
    decreases reset_steps_ahead(run),
{
    let step = reset_awaited(run);
    match reset_next(run, reset_carry_out(world, step)) {
        ResetTransition::Done(outcome) => ResetConclusion { outcome, taken: taken.push(step) },
        ResetTransition::Continue(following) => reset_drive(following, world, taken.push(step)),
    }
}

/// One whole reset in `world`.
pub open spec fn reset<C>(world: ResetWorld<C>) -> ResetConclusion<C> {
    reset_drive(ResetRun::Dropping, world, Seq::empty())
}

/// A reset halts at the first step that fails, and reports that step. In
/// particular, where the drop succeeds and the create fails, migrate is
/// never taken and the error names the create step. Where every step
/// succeeds, the reset gives the name under which the database was
/// created.
pub proof fn law_reset_halts_at_first_failure<C>(world: ResetWorld<C>)
    ensures
        world.drop matches Err(cause) ==> reset(world) == (ResetConclusion {
            outcome: Err(ResetError { step: ResetStep::Drop, cause }),
            taken: seq![ResetStep::Drop],
        }),
        world.drop is Ok ==> (world.create matches Err(cause) ==> reset(world) == (
        ResetConclusion {
            outcome: Err(ResetError { step: ResetStep::Create, cause }),
            taken: seq![ResetStep::Drop, ResetStep::Create],
        })),
        world.drop is Ok && world.create is Ok ==> (world.migrate matches Err(cause) ==> reset(
            world,
        ) == (ResetConclusion {
            outcome: Err(ResetError { step: ResetStep::Migrate, cause }),
            taken: seq![ResetStep::Drop, ResetStep::Create, ResetStep::Migrate],
        })),
        world.drop is Ok && world.migrate is Ok ==> (world.create matches Ok(database) ==> reset(
            world,
        ) == (ResetConclusion::<C> {
            outcome: Ok(database),
            taken: seq![ResetStep::Drop, ResetStep::Create, ResetStep::Migrate],
        })),
        world.drop is Ok && world.create is Err ==> !reset(world).taken.contains(
            ResetStep::Migrate,
        ),
{
    reveal_with_fuel(reset_drive, 4);
    let none = Seq::<ResetStep>::empty();
    assert(none.push(ResetStep::Drop) =~= seq![ResetStep::Drop]);
    assert(none.push(ResetStep::Drop).push(ResetStep::Create) =~= seq![
        ResetStep::Drop,
        ResetStep::Create,
    ]);
    assert(none.push(ResetStep::Drop).push(ResetStep::Create).push(ResetStep::Migrate) =~= seq![
        ResetStep::Drop,
        ResetStep::Create,
        ResetStep::Migrate,
    ]);
    if world.drop is Ok && world.create is Err {
        let taken = seq![ResetStep::Drop, ResetStep::Create];
        assert(reset(world).taken == taken);
        assert(taken[0] != ResetStep::Migrate && taken[1] != ResetStep::Migrate);
    }
}

} // verus!
