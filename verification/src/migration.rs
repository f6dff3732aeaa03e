//! Versioned migrations and the ordered source they are drawn from.

use vstd::prelude::*;

verus! {

/// One versioned unit of schema change, as found at discovery time.
#[derive(Debug, Clone, PartialEq, Eq)]
pub struct Migration {
    /// Totally ordered identifier, unique within a source.
    pub version: i64,
    /// Human-readable description.
    pub description: String,
    /// The statements to run, in the target store's query language.
    pub statements: String,
}

/// Why a set of discovered migrations cannot form a source.
#[derive(Debug, Clone, Copy, PartialEq, Eq, Structural)]
pub enum Defect {
    /// The migration with this version has no statements.
    EmptyStatements { version: i64 },
    /// A second migration carries this version.
    DuplicateVersion { version: i64 },
}

/// Whether some migration of `migrations` carries `version`.
pub open spec fn has_version(migrations: Seq<Migration>, version: i64) -> bool {
    exists|i: int| 0 <= i < migrations.len() && (#[trigger] migrations[i]).version == version
}

/// The defect of the last entry of `found` with respect to those before it.
pub open spec fn defect_of_last(found: Seq<Migration>) -> Option<Defect>
    recommends
        found.len() > 0,
{
    let last = found.last();
    if last.statements@.len() == 0 {
        Some(Defect::EmptyStatements { version: last.version })
    } else if has_version(found.drop_last(), last.version) {
        Some(Defect::DuplicateVersion { version: last.version })
    } else {
        None
    }
}

/// The defect of the first defective entry of `found`, in discovery order.
pub open spec fn first_defect(found: Seq<Migration>) -> Option<Defect>
    decreases found.len(),
{
    if found.len() == 0 {
        None
    } else {
        match first_defect(found.drop_last()) {
            Some(defect) => Some(defect),
            None => defect_of_last(found),
        }
    }
}

/// Where a migration of version `version` goes in the ordered sequence
/// `ordered`: behind every entry whose version is not greater.
pub open spec fn slot(ordered: Seq<Migration>, version: i64) -> int
    decreases ordered.len(),
{
    if ordered.len() == 0 || ordered.last().version <= version {
        ordered.len() as int
    } else {
        slot(ordered.drop_last(), version)
    }
}

/// `found` in ascending order of version; entries of equal version keep
/// their discovery order.
pub open spec fn arrange(found: Seq<Migration>) -> Seq<Migration>
    decreases found.len(),
{
    if found.len() == 0 {
        Seq::empty()
    } else {
        let ordered = arrange(found.drop_last());
        ordered.insert(slot(ordered, found.last().version), found.last())
    }
}

/// Versions increase strictly along `migrations`.
pub open spec fn strictly_ascending(migrations: Seq<Migration>) -> bool {
    forall|i: int, j: int|
        0 <= i < j < migrations.len() ==> (#[trigger] migrations[i]).version < (
        #[trigger] migrations[j]).version
}

/// Every migration of `migrations` has statements.
pub open spec fn all_have_statements(migrations: Seq<Migration>) -> bool {
    forall|i: int| 0 <= i < migrations.len() ==> (#[trigger] migrations[i]).statements@.len() > 0
}

/// The versions of `migrations`, in the same order.
pub open spec fn versions_of(migrations: Seq<Migration>) -> Seq<i64> {
    migrations.map_values(|m: Migration| m.version)
}

/// `slot` lies within the sequence, everything before it is not greater
/// than `version` and everything from it on is greater.
pub proof fn lemma_slot(ordered: Seq<Migration>, version: i64)
    requires
        strictly_ascending(ordered),
    ensures
        0 <= slot(ordered, version) <= ordered.len(),
        forall|i: int| 0 <= i < slot(ordered, version) ==> (#[trigger] ordered[i]).version <= version,
        forall|i: int|
            slot(ordered, version) <= i < ordered.len() ==> (#[trigger] ordered[i]).version
                > version,
    decreases ordered.len(),
{
    if ordered.len() == 0 || ordered.last().version <= version {
    } else {
        let shorter = ordered.drop_last();
        lemma_slot(shorter, version);
        assert forall|i: int| slot(ordered, version) <= i < ordered.len() implies (
        #[trigger] ordered[i]).version > version by {
            if i < shorter.len() {
                assert(shorter[i] == ordered[i]);
            }
        }
        assert forall|i: int| 0 <= i < slot(ordered, version) implies (
        #[trigger] ordered[i]).version <= version by {
            assert(shorter[i] == ordered[i]);
        }
    }
}

/// A defect-free `found` arranges into a strictly ascending sequence of the
/// same length that holds exactly the versions of `found`, each with its
/// statements.
pub proof fn lemma_arrange(found: Seq<Migration>)
    requires
        first_defect(found) is None,
    ensures
        strictly_ascending(arrange(found)),
        all_have_statements(arrange(found)),
        arrange(found).len() == found.len(),
        forall|version: i64| has_version(arrange(found), version) <==> has_version(found, version),
        arrange(found).to_multiset() == found.to_multiset(),
    decreases found.len(),
{
    broadcast use vstd::seq_lib::to_multiset_insert, vstd::seq_lib::to_multiset_build;

    if found.len() == 0 {
        assert(found =~= Seq::empty());
    } else {
        let shorter = found.drop_last();
        let last = found.last();
        lemma_arrange(shorter);
        let ordered = arrange(shorter);
        lemma_slot(ordered, last.version);
        let at = slot(ordered, last.version);
        let result = ordered.insert(at, last);
        assert(!has_version(ordered, last.version));
        assert forall|i: int, j: int| 0 <= i < j < result.len() implies (
        #[trigger] result[i]).version < (#[trigger] result[j]).version by {
            if j < at {
                assert(result[i] == ordered[i] && result[j] == ordered[j]);
            } else if j == at {
                assert(result[i] == ordered[i]);
                assert(ordered[i].version != last.version);
            } else if i < at {
                assert(result[i] == ordered[i] && result[j] == ordered[j - 1]);
            } else if i == at {
                assert(result[j] == ordered[j - 1]);
            } else {
                assert(result[i] == ordered[i - 1] && result[j] == ordered[j - 1]);
            }
        }
        assert forall|i: int| 0 <= i < result.len() implies (
        #[trigger] result[i]).statements@.len() > 0 by {
            if i < at {
                assert(result[i] == ordered[i]);
            } else if i > at {
                assert(result[i] == ordered[i - 1]);
            }
        }
        assert forall|version: i64| has_version(result, version) <==> has_version(
            found,
            version,
        ) by {
            if has_version(result, version) {
                let i = choose|i: int| 0 <= i < result.len() && (#[trigger] result[i]).version == version;
                if i == at {
                    assert(found[found.len() - 1].version == version);
                } else {
                    let k = if i < at { i } else { i - 1 };
                    assert(ordered[k].version == version);
                    assert(has_version(shorter, version));
                    let j = choose|j: int| 0 <= j < shorter.len() && (#[trigger] shorter[j]).version == version;
                    assert(found[j].version == version);
                }
            }
            if has_version(found, version) {
                let j = choose|j: int| 0 <= j < found.len() && (#[trigger] found[j]).version == version;
                if j == found.len() - 1 {
                    assert(result[at].version == version);
                } else {
                    assert(shorter[j].version == version);
                    assert(has_version(shorter, version));
                    assert(has_version(ordered, version));
                    let k = choose|k: int| 0 <= k < ordered.len() && (#[trigger] ordered[k]).version == version;
                    let i = if k < at { k } else { k + 1 };
                    assert(result[i].version == version);
                }
            }
        }
        assert(found =~= shorter.push(last));
    }
}

/// The migrations of one location, in ascending order of version.
///
/// Every value holds strictly ascending versions, so no version occurs
/// twice, and every migration in it has statements.
#[derive(Debug)]
pub struct MigrationSource {
    migrations: Vec<Migration>,
}

impl View for MigrationSource {
    type V = Seq<Migration>;

    closed spec fn view(&self) -> Seq<Migration> {
        self.migrations@
    }
}

impl MigrationSource {
    #[verifier::type_invariant]
    spec fn ordered(self) -> bool {
        strictly_ascending(self.migrations@) && all_have_statements(self.migrations@)
    }

    /// Builds the source from migrations found in any order.
    ///
    /// Fails with the defect of the first entry, in discovery order, that
    /// has no statements or repeats the version of an earlier entry.
    /// Otherwise the source holds the entries in ascending order of version.
    pub fn discover(found: Vec<Migration>) -> (result: Result<MigrationSource, Defect>)
        ensures
            match result {
                Ok(source) => first_defect(found@) is None && source@ == arrange(found@),
                Err(defect) => first_defect(found@) == Some(defect),
            },
    {
        let ghost all = found@;
        let mut ordered: Vec<Migration> = Vec::new();
        let mut rest = found;
        let mut taken: usize = 0;
        let total = rest.len();
        while rest.len() > 0
            invariant
                all == found@,
                taken + rest.len() == total,
                total == all.len(),
                rest@ == all.skip(taken as int),
                first_defect(all.take(taken as int)) is None,
                ordered@ == arrange(all.take(taken as int)),
            decreases rest.len(),
        {
            let migration = rest.remove(0);
            let version = migration.version;
            let ghost before = all.take(taken as int);
            let ghost now = all.take(taken + 1);
            proof {
                assert(migration == all[taken as int]);
                assert(now.drop_last() =~= before);
                assert(now.last() == migration);
                assert(rest@ =~= all.skip(taken + 1));
                lemma_arrange(before);
                lemma_slot(ordered@, version);
            }
            if migration.statements.as_str().is_empty() {
                proof {
                    assert(defect_of_last(now) == Some(Defect::EmptyStatements { version }));
                    lemma_first_defect_prefix(all, taken + 1);
                }
                return Err(Defect::EmptyStatements { version });
            }
            let mut at: usize = ordered.len();
            assert(ordered@.take(at as int) =~= ordered@);
            while at > 0 && ordered[at - 1].version > version
                invariant
                    at <= ordered.len(),
                    slot(ordered@, version) == slot(ordered@.take(at as int), version),
                decreases at,
            {
                proof {
                    assert(ordered@.take(at as int).drop_last() =~= ordered@.take(at - 1));
                }
                at -= 1;
            }
            assert(at == slot(ordered@, version)) by {
                assert(ordered@.take(at as int).len() == at);
                if at > 0 {
                    assert(ordered@.take(at as int).last() == ordered@[at - 1]);
                }
            }
            if at > 0 && ordered[at - 1].version == version {
                proof {
                    assert(has_version(ordered@, version));
                    assert(defect_of_last(now) == Some(Defect::DuplicateVersion { version }));
                    lemma_first_defect_prefix(all, taken + 1);
                }
                return Err(Defect::DuplicateVersion { version });
            }
            proof {
                if has_version(before, version) {
                    assert(has_version(ordered@, version));
                    let i = choose|i: int|
                        0 <= i < ordered@.len() && (#[trigger] ordered@[i]).version == version;
                    assert(false);
                }
                assert(first_defect(now) is None);
            }
            ordered.insert(at, migration);
            taken += 1;
        }
        proof {
            assert(all.take(taken as int) =~= all);
            lemma_arrange(all);
        }
        Ok(MigrationSource { migrations: ordered })
    }

    /// How many migrations the source holds.
    pub fn len(&self) -> (len: usize)
        ensures
            len == self@.len(),
    {
        self.migrations.len()
    }

    /// The migration of the given version, if the source holds one.
    pub fn find(&self, version: i64) -> (found: Option<&Migration>)
        ensures
            match found {
                Some(migration) => migration.version == version && self@.contains(*migration),
                None => !has_version(self@, version),
            },
    {
        proof {
            use_type_invariant(self);
        }
        let mut low: usize = 0;
        let mut high: usize = self.migrations.len();
        while low < high
            invariant
                low <= high <= self.migrations.len(),
                strictly_ascending(self.migrations@),
                forall|i: int| 0 <= i < low ==> (#[trigger] self.migrations@[i]).version < version,
                forall|i: int|
                    high <= i < self.migrations.len() ==> (#[trigger] self.migrations@[i]).version
                        > version,
            decreases high - low,
        {
            let middle = low + (high - low) / 2;
            let candidate = &self.migrations[middle];
            if candidate.version == version {
                return Some(candidate);
            }
            if candidate.version < version {
                low = middle + 1;
            } else {
                high = middle;
            }
        }
        None
    }

    /// The migrations, in ascending order of version.
    pub fn migrations(&self) -> (migrations: &Vec<Migration>)
        ensures
            migrations@ == self@,
            strictly_ascending(self@),
            all_have_statements(self@),
    {
        proof {
            use_type_invariant(self);
        }
        &self.migrations
    }
}

/// A defect among the first `n` entries is the defect of the whole.
pub proof fn lemma_first_defect_prefix(found: Seq<Migration>, n: int)
    requires
        0 <= n <= found.len(),
        first_defect(found.take(n)) is Some,
    ensures
        first_defect(found) == first_defect(found.take(n)),
    decreases found.len() - n,
{
    if n < found.len() {
        assert(found.take(n + 1).drop_last() =~= found.take(n));
        lemma_first_defect_prefix(found, n + 1);
    } else {
        assert(found.take(n) =~= found);
    }
}

} // verus!
