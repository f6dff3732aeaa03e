//! A model of the target database and the migration location, against
//! which the engine's guarantees are stated.
//!
//! The model is transactional: applying a migration either records its
//! version in the ledger, or fails and leaves the ledger as it was. Which
//! commands fail is fixed by the store, so that running the engine against
//! a store is a function of the store alone.

use crate::engine::{awaited, next, Command, EventView, MigrateError, Progress, RunState};
use crate::migration::Migration;
use vstd::prelude::*;

verus! {

/// One target database together with its migration location.
#[verifier::ext_equal]
pub struct Store<C> {
    /// What a reader finds at the location, in the order it finds it, or
    /// why it cannot read.
    pub location: Result<Seq<Migration>, C>,
    /// The versions recorded as applied, oldest first.
    pub ledger: Seq<i64>,
    /// Every version that was ever handed to the database to apply, oldest
    /// first, whether it committed or not.
    pub attempted: Seq<i64>,
    /// Why the ledger's storage cannot be ensured, if it cannot.
    pub storage_fault: Option<C>,
    /// Why the ledger cannot be listed, if it cannot.
    pub listing_fault: Option<C>,
    /// The versions whose statements fail, each with what the database
    /// reports for it.
    pub broken: Map<i64, C>,
}

/// The store after `command`, and the event that carrying it out gives.
pub open spec fn carry_out<C>(store: Store<C>, command: Command) -> (Store<C>, EventView<C>) {
    match command {
        Command::EnsureStorage => match store.storage_fault {
            Some(cause) => (store, EventView::Failed(cause)),
            None => (store, EventView::Completed),
        },
        Command::Discover => match store.location {
            Ok(found) => (store, EventView::Discovered(found)),
            Err(cause) => (store, EventView::Failed(cause)),
        },
        Command::ListApplied => match store.listing_fault {
            Some(cause) => (store, EventView::Failed(cause)),
            None => (store, EventView::Listed(store.ledger)),
        },
        Command::Apply { version } => {
            let tried = Store { attempted: store.attempted.push(version), ..store };
            if store.broken.dom().contains(version) {
                (tried, EventView::Failed(store.broken[version]))
            } else {
                (Store { ledger: store.ledger.push(version), ..tried }, EventView::Completed)
            }
        },
    }
}

/// How a run ended, and the store it left.
#[verifier::ext_equal]
pub struct Conclusion<C> {
    pub outcome: Result<usize, MigrateError<C>>,
    pub store: Store<C>,
}

/// A state whose awaited command exists.
pub open spec fn consistent(state: RunState) -> bool {
    match state {
        RunState::Applying { pending, committed, .. } => committed < pending.len(),
        _ => true,
    }
}

/// How many phases lie ahead of `state`.
pub open spec fn phases_ahead(state: RunState) -> nat {
    match state {
        RunState::EnsuringStorage => 3,
        RunState::Discovering => 2,
        RunState::Listing { .. } => 1,
        RunState::Applying { .. } => 0,
    }
}

/// How many migrations a run in `state` has yet to see committed.
pub open spec fn uncommitted(state: RunState) -> nat {
    match state {
        RunState::Applying { pending, committed, .. } => (pending.len() - committed) as nat,
        _ => 0,
    }
}

/// Runs the engine from `state` against `store` until it ends.
pub open spec fn drive<C>(state: RunState, store: Store<C>) -> Conclusion<C>
    decreases phases_ahead(state), uncommitted(state),
    when consistent(state)
{
    let (after, event) = carry_out(store, awaited(state));
    match next(state, event) {
        Progress::Done(outcome) => Conclusion { outcome, store: after },
        Progress::Continue(following) => drive(following, after),
    }
}

/// One whole run of the engine against `store`.
pub open spec fn run<C>(store: Store<C>) -> Conclusion<C> {
    drive(RunState::EnsuringStorage, store)
}

} // verus!
