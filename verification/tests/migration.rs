use schema_lifecycle::migration::{Defect, Migration, MigrationSource};

fn migration(version: i64, statements: &str) -> Migration {
    Migration {
        version,
        description: format!("migration {}", version),
        statements: statements.to_string(),
    }
}

fn versions(source: &MigrationSource) -> Vec<i64> {
    source.migrations().iter().map(|m| m.version).collect()
}

#[test]
fn discover_orders_by_version() {
    let found = vec![
        migration(3, "CREATE INDEX i ON t (c)"),
        migration(1, "CREATE TABLE t ()"),
        migration(2, "ALTER TABLE t ADD c int"),
    ];
    let source = MigrationSource::discover(found).unwrap();
    assert_eq!(versions(&source), vec![1, 2, 3]);
    assert_eq!(source.len(), 3);
    assert_eq!(source.migrations()[0].statements, "CREATE TABLE t ()");
    assert_eq!(source.migrations()[2].statements, "CREATE INDEX i ON t (c)");
}

#[test]
fn discover_keeps_every_migration_whole() {
    let found = vec![migration(20, "b"), migration(-5, "a"), migration(7, "c")];
    let source = MigrationSource::discover(found.clone()).unwrap();
    assert_eq!(versions(&source), vec![-5, 7, 20]);
    for m in &found {
        assert!(source.migrations().contains(m));
    }
}

#[test]
fn discover_accepts_an_empty_location() {
    let source = MigrationSource::discover(Vec::new()).unwrap();
    assert_eq!(source.len(), 0);
    assert!(source.find(1).is_none());
}

#[test]
fn discover_accepts_the_extreme_versions() {
    let found = vec![migration(i64::MAX, "x"), migration(0, "y"), migration(i64::MIN, "z")];
    let source = MigrationSource::discover(found).unwrap();
    assert_eq!(versions(&source), vec![i64::MIN, 0, i64::MAX]);
}

#[test]
fn discover_rejects_empty_statements() {
    let found = vec![migration(1, "CREATE TABLE t ()"), migration(2, "")];
    assert_eq!(
        MigrationSource::discover(found).unwrap_err(),
        Defect::EmptyStatements { version: 2 }
    );
}

#[test]
fn discover_rejects_a_repeated_version() {
    let found = vec![migration(4, "a"), migration(9, "b"), migration(4, "c")];
    assert_eq!(
        MigrationSource::discover(found).unwrap_err(),
        Defect::DuplicateVersion { version: 4 }
    );
}

#[test]
fn discover_reports_the_first_defect_in_discovery_order() {
    let found = vec![migration(5, "a"), migration(5, "b"), migration(1, "")];
    assert_eq!(
        MigrationSource::discover(found).unwrap_err(),
        Defect::DuplicateVersion { version: 5 }
    );
    let found = vec![migration(5, "a"), migration(1, ""), migration(5, "b")];
    assert_eq!(
        MigrationSource::discover(found).unwrap_err(),
        Defect::EmptyStatements { version: 1 }
    );
}

#[test]
fn an_entry_both_empty_and_repeated_counts_as_empty() {
    let found = vec![migration(5, "a"), migration(5, "")];
    assert_eq!(
        MigrationSource::discover(found).unwrap_err(),
        Defect::EmptyStatements { version: 5 }
    );
}

#[test]
fn find_gives_the_migration_of_a_version() {
    let found: Vec<Migration> = [8, 3, 5, 1, 13, 2, 21]
        .iter()
        .map(|v| migration(*v, &format!("statement {}", v)))
        .collect();
    let source = MigrationSource::discover(found).unwrap();
    for v in [1, 2, 3, 5, 8, 13, 21] {
        let m = source.find(v).unwrap();
        assert_eq!(m.version, v);
        assert_eq!(m.statements, format!("statement {}", v));
    }
    for v in [0, 4, 6, 7, 9, 20, 22, -1] {
        assert!(source.find(v).is_none());
    }
}
