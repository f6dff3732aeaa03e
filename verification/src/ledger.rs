//! The record of applied migration versions, and what it leaves pending.

use crate::migration::{
    has_version, strictly_ascending, versions_of, Migration, MigrationSource,
};
use std::collections::HashSet;
use vstd::prelude::*;

verus! {

broadcast use vstd::std_specs::hash::group_hash_axioms;

/// The test that keeps a version when it is not in `applied`.
pub open spec fn unapplied(applied: Set<i64>) -> spec_fn(i64) -> bool {
    |version: i64| !applied.contains(version)
}

/// The versions of `versions` that are not in `applied`, in the same order.
pub open spec fn pending_versions(versions: Seq<i64>, applied: Set<i64>) -> Seq<i64> {
    versions.filter(unapplied(applied))
}

/// Each element of `versions` is smaller than every later one.
pub open spec fn increasing(versions: Seq<i64>) -> bool {
    forall|i: int, j: int| 0 <= i < j < versions.len() ==> versions[i] < versions[j]
}

/// Ascending migrations have increasing versions.
pub proof fn lemma_versions_increasing(migrations: Seq<Migration>)
    requires
        strictly_ascending(migrations),
    ensures
        increasing(versions_of(migrations)),
{
    let versions = versions_of(migrations);
    assert forall|i: int, j: int| 0 <= i < j < versions.len() implies versions[i] < versions[j] by {
        assert(migrations[i].version < migrations[j].version);
    }
}

/// What is pending keeps the order of an increasing `versions`, and holds
/// exactly those versions that `applied` lacks.
pub proof fn lemma_pending(versions: Seq<i64>, applied: Set<i64>)
    requires
        increasing(versions),
    ensures
        increasing(pending_versions(versions, applied)),
        pending_versions(versions, applied).len() <= versions.len(),
        forall|version: i64|
            pending_versions(versions, applied).contains(version) <==> versions.contains(version)
                && !applied.contains(version),
    decreases versions.len(),
{
    reveal(Seq::filter);
    let pending = pending_versions(versions, applied);
    if versions.len() > 0 {
        let shorter = versions.drop_last();
        let last = versions.last();
        let before = pending_versions(shorter, applied);
        lemma_pending(shorter, applied);
        assert forall|i: int| 0 <= i < before.len() implies #[trigger] before[i] < last by {
            assert(before.contains(before[i]));
            assert(shorter.contains(before[i]));
            let j = choose|j: int| 0 <= j < shorter.len() && shorter[j] == before[i];
            assert(versions[j] == shorter[j]);
        }
        assert forall|version: i64|
            pending.contains(version) <==> versions.contains(version) && !applied.contains(
                version,
            ) by {
            if pending.contains(version) {
                let i = choose|i: int| 0 <= i < pending.len() && pending[i] == version;
                if i < before.len() {
                    assert(before.contains(before[i]));
                    let j = choose|j: int| 0 <= j < shorter.len() && shorter[j] == version;
                    assert(versions[j] == version);
                } else {
                    assert(versions[versions.len() - 1] == version);
                }
            }
            if versions.contains(version) && !applied.contains(version) {
                let j = choose|j: int| 0 <= j < versions.len() && versions[j] == version;
                if j < shorter.len() {
                    assert(shorter[j] == version);
                    assert(before.contains(version));
                    let i = choose|i: int| 0 <= i < before.len() && before[i] == version;
                    assert(pending[i] == version);
                } else {
                    assert(pending[pending.len() - 1] == version);
                }
            }
        }
    }
}

/// Where `applied` holds none of `versions`, all of them are pending.
pub proof fn lemma_pending_all(versions: Seq<i64>, applied: Set<i64>)
    requires
        forall|i: int| 0 <= i < versions.len() ==> !applied.contains(versions[i]),
    ensures
        pending_versions(versions, applied) == versions,
    decreases versions.len(),
{
    reveal(Seq::filter);
    if versions.len() > 0 {
        let shorter = versions.drop_last();
        assert forall|i: int| 0 <= i < shorter.len() implies !applied.contains(shorter[i]) by {
            assert(shorter[i] == versions[i]);
        }
        lemma_pending_all(shorter, applied);
        assert(shorter.push(versions.last()) =~= versions);
    }
}

/// Once the first `count` pending versions have been added to the applied
/// ones, exactly the others remain pending.
///
/// `later` may be any set that, on `versions`, holds what `applied` holds
/// and those first `count`.
pub proof fn lemma_pending_after(versions: Seq<i64>, applied: Set<i64>, count: int, later: Set<i64>)
    requires
        increasing(versions),
        0 <= count <= pending_versions(versions, applied).len(),
        forall|version: i64| #[trigger]
            versions.contains(version) ==> (later.contains(version) <==> applied.contains(version)
                || pending_versions(versions, applied).take(count).contains(version)),
    ensures
        pending_versions(versions, later) == pending_versions(versions, applied).skip(count),
    decreases versions.len(),
{
    reveal(Seq::filter);
    let pending = pending_versions(versions, applied);
    if versions.len() == 0 {
        assert(pending.skip(count) =~= pending_versions(versions, later));
    } else {
        let shorter = versions.drop_last();
        let last = versions.last();
        let before = pending_versions(shorter, applied);
        lemma_pending(shorter, applied);
        lemma_pending(versions, applied);
        assert(versions.contains(last)) by {
            assert(versions[versions.len() - 1] == last);
        }
        assert(!shorter.contains(last)) by {
            if shorter.contains(last) {
                let j = choose|j: int| 0 <= j < shorter.len() && shorter[j] == last;
                assert(versions[j] == shorter[j]);
            }
        }
        let fewer = if count <= before.len() {
            count
        } else {
            before.len() as int
        };
        assert(pending.take(fewer) =~= before.take(fewer));
        assert forall|version: i64| #[trigger]
            shorter.contains(version) implies (later.contains(version) <==> applied.contains(version)
                || before.take(fewer).contains(version)) by {
            let j = choose|j: int| 0 <= j < shorter.len() && shorter[j] == version;
            assert(versions[j] == version);
            assert(versions.contains(version));
            if pending.take(count).contains(version) && !before.take(fewer).contains(version) {
                let i = choose|i: int| 0 <= i < count && pending.take(count)[i] == version;
                if i < fewer {
                    assert(before.take(fewer)[i] == version);
                } else {
                    assert(pending[i] == last);
                }
            }
            if before.take(fewer).contains(version) {
                let i = choose|i: int| 0 <= i < fewer && before.take(fewer)[i] == version;
                assert(pending.take(count)[i] == version);
            }
        }
        lemma_pending_after(shorter, applied, fewer, later);
        if applied.contains(last) {
            assert(later.contains(last));
            assert(pending_versions(versions, later) =~= pending.skip(count));
        } else if count <= before.len() {
            assert(!later.contains(last)) by {
                if pending.take(count).contains(last) {
                    let i = choose|i: int| 0 <= i < count && pending.take(count)[i] == last;
                    assert(before[i] == last);
                    assert(before.contains(last));
                }
            }
            assert(pending_versions(versions, later) =~= pending.skip(count));
        } else {
            assert(later.contains(last)) by {
                assert(pending.take(count)[count - 1] == last);
            }
            assert(pending_versions(versions, later) =~= pending.skip(count));
        }
    }
}

/// The applied versions of one target database, as last listed.
#[derive(Debug)]
pub struct Ledger {
    applied: HashSet<i64>,
}

impl View for Ledger {
    type V = Set<i64>;

    closed spec fn view(&self) -> Set<i64> {
        self.applied@
    }
}

impl Ledger {
    /// The ledger that holds the versions of `listing`, each once.
    pub fn from_listing(listing: &Vec<i64>) -> (ledger: Ledger)
        ensures
            ledger@ == listing@.to_set(),
    {
        let mut applied: HashSet<i64> = HashSet::new();
        let mut i: usize = 0;
        while i < listing.len()
            invariant
                i <= listing.len(),
                applied@ == listing@.take(i as int).to_set(),
            decreases listing.len() - i,
        {
            proof {
                assert(listing@.take(i + 1) =~= listing@.take(i as int).push(listing@[i as int]));
                listing@.take(i as int).lemma_push_to_set_commute(listing@[i as int]);
            }
            applied.insert(listing[i]);
            i += 1;
        }
        proof {
            assert(listing@.take(i as int) =~= listing@);
        }
        Ledger { applied }
    }

    /// Records `version` as applied.
    pub fn record(&mut self, version: i64)
        ensures
            final(self)@ == old(self)@.insert(version),
    {
        self.applied.insert(version);
    }

    /// Whether `version` is recorded as applied.
    pub fn contains(&self, version: i64) -> (found: bool)
        ensures
            found == self@.contains(version),
    {
        self.applied.contains(&version)
    }

    /// The versions of `source` that this ledger does not hold, ascending.
    pub fn pending(&self, source: &MigrationSource) -> (pending: Vec<i64>)
        ensures
            pending@ == pending_versions(versions_of(source@), self@),
            increasing(pending@),
            forall|i: int|
                0 <= i < pending.len() ==> has_version(source@, #[trigger] pending@[i])
                    && !self@.contains(pending@[i]),
    {
        let migrations = source.migrations();
        proof {
            let versions = versions_of(source@);
            let all = pending_versions(versions, self@);
            lemma_versions_increasing(source@);
            lemma_pending(versions, self@);
            assert forall|i: int| 0 <= i < all.len() implies has_version(source@, #[trigger] all[i])
                && !self@.contains(all[i]) by {
                assert(all.contains(all[i]));
                let j = choose|j: int| 0 <= j < versions.len() && versions[j] == all[i];
                assert(source@[j].version == all[i]);
            }
        }
        let ghost keep = unapplied(self@);
        let mut pending: Vec<i64> = Vec::new();
        let mut i: usize = 0;
        proof {
            reveal(Seq::filter);
            assert(versions_of(source@.take(0)) =~= Seq::<i64>::empty());
        }
        while i < migrations.len()
            invariant
                i <= migrations.len(),
                migrations@ == source@,
                keep == unapplied(self@),
                pending@ == versions_of(source@.take(i as int)).filter(keep),
            decreases migrations.len() - i,
        {
            let version = migrations[i].version;
            proof {
                let before = versions_of(source@.take(i as int));
                assert(versions_of(source@.take(i + 1)) =~= before.push(version));
                before.lemma_filter_push(version, keep);
            }
            if !self.contains(version) {
                pending.push(version);
            }
            i += 1;
        }
        proof {
            assert(source@.take(i as int) =~= source@);
        }
        pending
    }
}

} // verus!
