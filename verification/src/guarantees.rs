//! What the engine guarantees of every run, proved against the model of
//! the target database in `store`.

use crate::engine::{awaited, ApplicationError, DiscoveryError, LedgerError, MigrateError, RunState};
use crate::ledger::{
    increasing, lemma_pending, lemma_pending_after, lemma_pending_all, lemma_versions_increasing,
    pending_versions,
};
use crate::migration::{arrange, first_defect, lemma_arrange, versions_of, Migration};
use crate::store::{carry_out, drive, run, Conclusion, Store};
use vstd::prelude::*;

verus! {

/// The failure that ends a run against `store` before it applies
/// anything, if there is one: of ensuring storage, of discovery, or of
/// listing, whichever comes first.
pub open spec fn early_failure<C>(store: Store<C>) -> Option<MigrateError<C>> {
    if let Some(cause) = store.storage_fault {
        Some(MigrateError::Ledger(LedgerError::Storage(cause)))
    } else {
        match store.location {
            Err(cause) => Some(MigrateError::Discovery(DiscoveryError::Unreadable(cause))),
            Ok(found) => if let Some(defect) = first_defect(found) {
                Some(MigrateError::Discovery(DiscoveryError::Malformed(defect)))
            } else if let Some(cause) = store.listing_fault {
                Some(MigrateError::Ledger(LedgerError::Listing(cause)))
            } else {
                None
            },
        }
    }
}

/// Storage, discovery and listing all succeed on `store`, so that a run
/// gets as far as applying what is pending.
pub open spec fn reaches_application<C>(store: Store<C>) -> bool {
    early_failure(store) is None
}

/// The versions of the location of `store`, ascending.
pub open spec fn source_versions<C>(store: Store<C>) -> Seq<i64>
    recommends
        store.location is Ok,
{
    versions_of(arrange(store.location->Ok_0))
}

/// The versions that a run against `store` sets out to apply, in the order
/// in which it takes them up.
pub open spec fn plan<C>(store: Store<C>) -> Seq<i64>
    recommends
        store.location is Ok,
{
    pending_versions(source_versions(store), store.ledger.to_set())
}

/// The first position from `from` on at which `pending` holds a version of
/// `broken`, or the length of `pending` if there is none.
pub open spec fn halt(pending: Seq<i64>, broken: Set<i64>, from: int) -> int
    decreases pending.len() - from,
{
    if from >= pending.len() {
        pending.len() as int
    } else if broken.contains(pending[from]) {
        from
    } else {
        halt(pending, broken, from + 1)
    }
}

/// How many of `pending` are handed to the database when the run halts at
/// `stop`: those before `stop`, and the one at `stop` if there is one.
pub open spec fn tried(pending: Seq<i64>, stop: int) -> int {
    if stop < pending.len() {
        stop + 1
    } else {
        stop
    }
}

/// `halt` is the first broken position: nothing before it is broken, and
/// it is broken itself unless it is the length.
pub proof fn lemma_halt(pending: Seq<i64>, broken: Set<i64>, from: int)
    requires
        0 <= from <= pending.len(),
    ensures
        from <= halt(pending, broken, from) <= pending.len(),
        forall|i: int| from <= i < halt(pending, broken, from) ==> !broken.contains(pending[i]),
        halt(pending, broken, from) < pending.len() ==> broken.contains(
            pending[halt(pending, broken, from)],
        ),
    decreases pending.len() - from,
{
    if from < pending.len() && !broken.contains(pending[from]) {
        lemma_halt(pending, broken, from + 1);
    }
}

/// How a run that is applying ends: it commits what is pending, in order,
/// up to the first broken version, and stops there.
pub proof fn lemma_drive_applying<C>(
    source: Seq<Migration>,
    pending: Seq<i64>,
    committed: nat,
    store: Store<C>,
)
    requires
        committed < pending.len(),
    ensures
        ({
            let stop = halt(pending, store.broken.dom(), committed as int);
            let end = drive(RunState::Applying { source, pending, committed }, store);
            &&& committed <= stop <= pending.len()
            &&& end.store == Store {
                ledger: store.ledger + pending.subrange(committed as int, stop),
                attempted: store.attempted + pending.subrange(
                    committed as int,
                    tried(pending, stop),
                ),
                ..store
            }
            &&& end.outcome == if stop == pending.len() {
                Ok::<usize, MigrateError<C>>(stop as usize)
            } else {
                Err(
                    MigrateError::Application(
                        ApplicationError {
                            version: pending[stop],
                            applied: stop as usize,
                            cause: store.broken[pending[stop]],
                        },
                    ),
                )
            }
        }),
    decreases pending.len() - committed,
{
    let state = RunState::Applying { source, pending, committed };
    let done = committed as int;
    let version = pending[done];
    let stop = halt(pending, store.broken.dom(), done);
    let upto = tried(pending, stop);
    let end = drive(state, store);
    let (after, event) = carry_out(store, awaited(state));
    lemma_halt(pending, store.broken.dom(), done);
    if store.broken.dom().contains(version) {
        assert(pending.subrange(done, done) =~= Seq::<i64>::empty());
        assert(pending.subrange(done, done + 1) =~= seq![version]);
        assert(end.store.ledger =~= store.ledger + pending.subrange(done, stop));
        assert(end.store.attempted =~= store.attempted + pending.subrange(done, upto));
    } else if done + 1 == pending.len() {
        assert(pending.subrange(done, done + 1) =~= seq![version]);
        assert(end.store.ledger =~= store.ledger + pending.subrange(done, stop));
        assert(end.store.attempted =~= store.attempted + pending.subrange(done, upto));
    } else {
        lemma_drive_applying(source, pending, committed + 1, after);
        assert(store.ledger.push(version) + pending.subrange(done + 1, stop) =~= store.ledger
            + pending.subrange(done, stop));
        assert(store.attempted.push(version) + pending.subrange(done + 1, upto)
            =~= store.attempted + pending.subrange(done, upto));
    }
}

/// How every run ends.
///
/// Where storage, discovery or listing fails, the run ends with that
/// failure and leaves the store as it was. Otherwise it commits the plan
/// in order up to the first broken version, and stops there.
pub proof fn lemma_run<C>(store: Store<C>)
    ensures
        early_failure(store) matches Some(error) ==> run(store) == (Conclusion {
            outcome: Err(error),
            store,
        }),
        reaches_application(store) ==> ({
            let plan = plan(store);
            let stop = halt(plan, store.broken.dom(), 0);
            &&& 0 <= stop <= plan.len()
            &&& run(store).store == Store {
                ledger: store.ledger + plan.take(stop),
                attempted: store.attempted + plan.take(tried(plan, stop)),
                ..store
            }
            &&& run(store).outcome == if stop == plan.len() {
                Ok::<usize, MigrateError<C>>(stop as usize)
            } else {
                Err(
                    MigrateError::Application(
                        ApplicationError {
                            version: plan[stop],
                            applied: stop as usize,
                            cause: store.broken[plan[stop]],
                        },
                    ),
                )
            }
        }),
{
    reveal_with_fuel(drive, 4);
    if reaches_application(store) {
        let source = arrange(store.location->Ok_0);
        let plan = plan(store);
        if plan.len() == 0 {
            assert(store.ledger + plan.take(0) =~= store.ledger);
            assert(store.attempted + plan.take(0) =~= store.attempted);
        } else {
            lemma_drive_applying(source, plan, 0, store);
            let stop = halt(plan, store.broken.dom(), 0);
            assert(plan.subrange(0, stop) =~= plan.take(stop));
            assert(plan.subrange(0, tried(plan, stop)) =~= plan.take(tried(plan, stop)));
        }
    }
}

/// The versions that a run against `store` hands to the database.
pub open spec fn newly_attempted<C>(store: Store<C>) -> Seq<i64> {
    run(store).store.attempted.skip(store.attempted.len() as int)
}

/// The versions that a run against `store` adds to the ledger.
pub open spec fn newly_applied<C>(store: Store<C>) -> Seq<i64> {
    run(store).store.ledger.skip(store.ledger.len() as int)
}

/// What is planned is increasing, and is what the source holds and the
/// ledger lacks.
pub proof fn lemma_plan<C>(store: Store<C>)
    requires
        reaches_application(store),
    ensures
        increasing(source_versions(store)),
        increasing(plan(store)),
        forall|version: i64|
            plan(store).contains(version) <==> source_versions(store).contains(version)
                && !store.ledger.contains(version),
{
    let found = store.location->Ok_0;
    lemma_arrange(found);
    lemma_versions_increasing(arrange(found));
    lemma_pending(source_versions(store), store.ledger.to_set());
}

/// Whatever order the migrations are discovered in, and whatever fails, a
/// run hands versions to the database in increasing order, none of them
/// already in the ledger, and takes up a version only when every version
/// it took up before has been committed: what it adds to the ledger is
/// what it attempted, but for a last attempt that failed.
pub proof fn law_ascending_order<C>(store: Store<C>)
    ensures
        run(store).store.attempted == store.attempted + newly_attempted(store),
        run(store).store.ledger == store.ledger + newly_applied(store),
        increasing(newly_attempted(store)),
        forall|i: int|
            0 <= i < newly_attempted(store).len() ==> !store.ledger.contains(
                newly_attempted(store)[i],
            ),
        newly_attempted(store) == newly_applied(store) || (newly_attempted(store).len() > 0
            && run(store).outcome is Err && newly_attempted(store).drop_last() == newly_applied(
            store,
        )),
{
    lemma_run(store);
    if reaches_application(store) {
        lemma_plan(store);
        let plan = plan(store);
        let stop = halt(plan, store.broken.dom(), 0);
        let upto = tried(plan, stop);
        assert(newly_attempted(store) =~= plan.take(upto));
        assert(newly_applied(store) =~= plan.take(stop));
        assert forall|i: int| 0 <= i < newly_attempted(store).len() implies !store.ledger.contains(
            newly_attempted(store)[i],
        ) by {
            assert(plan.contains(plan[i]));
        }
        if stop < plan.len() {
            assert(plan.take(upto).drop_last() =~= plan.take(stop));
        }
    } else {
        assert(newly_attempted(store) =~= Seq::<i64>::empty());
        assert(newly_applied(store) =~= Seq::<i64>::empty());
        assert(store.attempted + newly_attempted(store) =~= store.attempted);
        assert(store.ledger + newly_applied(store) =~= store.ledger);
    }
}

/// A run that follows a run, with nothing added to the location in
/// between, applies nothing: it leaves the ledger as the first run left
/// it, and the count it reports, on success or on failure, is zero. After
/// a first run that succeeded, it succeeds and attempts nothing.
pub proof fn law_second_run_applies_nothing<C>(store: Store<C>)
    ensures
        run(run(store).store).store.ledger == run(store).store.ledger,
        run(run(store).store).outcome matches Ok(count) ==> count == 0,
        run(run(store).store).outcome matches Err(MigrateError::Application(error))
            ==> error.applied == 0,
        run(store).outcome is Ok ==> run(run(store).store) == (Conclusion {
            outcome: Ok(0),
            store: run(store).store,
        }),
{
    let first = run(store);
    lemma_run(store);
    lemma_run(first.store);
    if reaches_application(store) {
        lemma_plan(store);
        let plan = plan(store);
        let stop = halt(plan, store.broken.dom(), 0);
        let again = crate::guarantees::plan(first.store);
        lemma_halt(plan, store.broken.dom(), 0);
        assert(reaches_application(first.store));
        assert(again == plan.skip(stop)) by {
            let later = first.store.ledger.to_set();
            assert forall|version: i64| #[trigger]
                source_versions(store).contains(version) implies (later.contains(version)
                <==> store.ledger.to_set().contains(version) || plan.take(stop).contains(
                version,
            )) by {
                vstd::seq_lib::seq_to_set_distributes_over_add(store.ledger, plan.take(stop));
            }
            lemma_pending_after(source_versions(store), store.ledger.to_set(), stop, later);
        }
        if stop < plan.len() {
            assert(again[0] == plan[stop]);
        }
        assert(halt(again, store.broken.dom(), 0) == 0);
        assert(again.take(0) =~= Seq::<i64>::empty());
        assert(first.store.ledger + again.take(0) =~= first.store.ledger);
        if stop == plan.len() {
            assert(first.store.attempted + again.take(0) =~= first.store.attempted);
        }
    }
}

/// Halt on failure: where the first broken version of the plan stands at
/// position `failing`, the run commits exactly the `failing` versions
/// before it, reports that count with the broken version, and hands
/// nothing behind the broken version to the database.
pub proof fn law_halt_on_failure<C>(store: Store<C>, failing: int)
    requires
        reaches_application(store),
        plan(store).len() <= usize::MAX,
        0 <= failing < plan(store).len(),
        store.broken.dom().contains(plan(store)[failing]),
        forall|i: int| 0 <= i < failing ==> !store.broken.dom().contains(plan(store)[i]),
    ensures
        run(store).outcome matches Err(MigrateError::Application(error)) && error.version == plan(
            store,
        )[failing] && error.applied == failing && error.cause == store.broken[plan(
            store,
        )[failing]],
        run(store).store.ledger == store.ledger + plan(store).take(failing),
        run(store).store.attempted == store.attempted + plan(store).take(failing + 1),
{
    lemma_run(store);
    lemma_halt(plan(store), store.broken.dom(), 0);
}

/// Where nothing that is planned is broken, the run commits the whole plan
/// and reports its length; the ledger then holds what it held and every
/// version of the source. On an empty ledger it ends up holding exactly
/// the source's versions, in ascending order.
pub proof fn law_ledger_after_success<C>(store: Store<C>)
    requires
        reaches_application(store),
        plan(store).len() <= usize::MAX,
        forall|i: int| 0 <= i < plan(store).len() ==> !store.broken.dom().contains(plan(store)[i]),
    ensures
        run(store).outcome matches Ok(count) && count == plan(store).len(),
        run(store).store.ledger == store.ledger + plan(store),
        run(store).store.attempted == store.attempted + plan(store),
        run(store).store.ledger.to_set() == store.ledger.to_set().union(
            source_versions(store).to_set(),
        ),
        store.ledger.len() == 0 ==> run(store).store.ledger == source_versions(store),
{
    let plan = plan(store);
    lemma_run(store);
    lemma_halt(plan, store.broken.dom(), 0);
    lemma_plan(store);
    assert(plan.take(plan.len() as int) =~= plan);
    vstd::seq_lib::seq_to_set_distributes_over_add(store.ledger, plan);
    assert(run(store).store.ledger.to_set() =~= store.ledger.to_set().union(
        source_versions(store).to_set(),
    ));
    if store.ledger.len() == 0 {
        lemma_pending_all(source_versions(store), store.ledger.to_set());
        assert(store.ledger + plan =~= plan);
    }
}

/// The ledger only grows, by versions of the source that it did not hold:
/// a run appends to it, keeps it free of repetitions, and adds nothing
/// that the source lacks.
pub proof fn law_ledger_grows_within_source<C>(store: Store<C>)
    ensures
        store.ledger.is_prefix_of(run(store).store.ledger),
        store.ledger.no_duplicates() ==> run(store).store.ledger.no_duplicates(),
        forall|version: i64|
            run(store).store.ledger.contains(version) && !store.ledger.contains(version) ==> (
            store.location is Ok && source_versions(store).contains(version)),
{
    lemma_run(store);
    let after = run(store).store.ledger;
    if reaches_application(store) {
        lemma_plan(store);
        let plan = plan(store);
        let stop = halt(plan, store.broken.dom(), 0);
        let added = plan.take(stop);
        assert forall|i: int, j: int| 0 <= i < j < after.len() && store.ledger.no_duplicates()
            implies after[i] != after[j] by {
            if j >= store.ledger.len() {
                assert(plan.contains(plan[j - store.ledger.len()]));
                if i >= store.ledger.len() {
                    assert(plan[i - store.ledger.len()] < plan[j - store.ledger.len()]);
                } else {
                    assert(store.ledger.contains(store.ledger[i]));
                }
            }
        }
        assert forall|version: i64|
            after.contains(version) && !store.ledger.contains(version) implies source_versions(
            store,
        ).contains(version) by {
            let i = choose|i: int| 0 <= i < after.len() && after[i] == version;
            if i < store.ledger.len() {
                assert(store.ledger[i] == version);
            } else {
                assert(plan.contains(plan[i - store.ledger.len()]));
            }
        }
    }
}

} // verus!
