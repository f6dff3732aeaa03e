use schema_lifecycle::engine::{
    ApplicationError, Command, DiscoveryError, Event, LedgerError, MigrateError, MigrationRun,
    Transition,
};
use schema_lifecycle::migration::{Defect, Migration};

/// A database held in memory: applying a version records it, unless the
/// version is broken, in which case nothing is recorded.
struct Database {
    location: Result<Vec<Migration>, String>,
    ledger: Vec<i64>,
    attempted: Vec<i64>,
    storage_fault: Option<String>,
    listing_fault: Option<String>,
    broken: Vec<i64>,
    commands: Vec<Command>,
}

fn migration(version: i64) -> Migration {
    Migration {
        version,
        description: format!("migration {}", version),
        statements: format!("CREATE TABLE t{} ()", version),
    }
}

fn database(found: &[i64], ledger: &[i64]) -> Database {
    Database {
        location: Ok(found.iter().map(|v| migration(*v)).collect()),
        ledger: ledger.to_vec(),
        attempted: Vec::new(),
        storage_fault: None,
        listing_fault: None,
        broken: Vec::new(),
        commands: Vec::new(),
    }
}

fn carry_out(db: &mut Database, command: Command) -> Event<String> {
    db.commands.push(command);
    match command {
        Command::EnsureStorage => match &db.storage_fault {
            Some(cause) => Event::Failed(cause.clone()),
            None => Event::Completed,
        },
        Command::Discover => match &db.location {
            Ok(found) => Event::Discovered(found.clone()),
            Err(cause) => Event::Failed(cause.clone()),
        },
        Command::ListApplied => match &db.listing_fault {
            Some(cause) => Event::Failed(cause.clone()),
            None => Event::Listed(db.ledger.clone()),
        },
        Command::Apply { version } => {
            db.attempted.push(version);
            if db.broken.contains(&version) {
                Event::Failed(format!("statements of {} failed", version))
            } else {
                db.ledger.push(version);
                Event::Completed
            }
        }
    }
}

fn migrate(db: &mut Database) -> Result<usize, MigrateError<String>> {
    let mut run = MigrationRun::new();
    loop {
        let event = carry_out(db, run.command());
        match run.step(event) {
            Transition::Continue(next) => run = next,
            Transition::Done(outcome) => return outcome,
        }
    }
}

fn continued(transition: Transition<String>) -> MigrationRun {
    match transition {
        Transition::Continue(run) => run,
        Transition::Done(outcome) => panic!("the run ended with {:?}", outcome),
    }
}

fn done(transition: Transition<String>) -> Result<usize, MigrateError<String>> {
    match transition {
        Transition::Continue(run) => panic!("the run goes on with {:?}", run.command()),
        Transition::Done(outcome) => outcome,
    }
}

#[test]
fn a_new_run_first_ensures_storage() {
    let run = MigrationRun::new();
    assert_eq!(run.command(), Command::EnsureStorage);
    assert!(run.migration().is_none());
}

#[test]
fn the_commands_come_in_the_order_of_the_algorithm() {
    let mut db = database(&[2, 1], &[]);
    assert_eq!(migrate(&mut db), Ok(2));
    assert_eq!(
        db.commands,
        vec![
            Command::EnsureStorage,
            Command::Discover,
            Command::ListApplied,
            Command::Apply { version: 1 },
            Command::Apply { version: 2 },
        ]
    );
}

#[test]
fn migrations_are_applied_in_ascending_order_whatever_the_discovery_order() {
    let orders: [[i64; 4]; 5] =
        [[1, 2, 3, 4], [4, 3, 2, 1], [2, 4, 1, 3], [3, 1, 4, 2], [4, 1, 3, 2]];
    for order in orders {
        let mut db = database(&order, &[]);
        assert_eq!(migrate(&mut db), Ok(4));
        assert_eq!(db.attempted, vec![1, 2, 3, 4]);
        assert_eq!(db.ledger, vec![1, 2, 3, 4]);
    }
}

#[test]
fn a_second_run_applies_nothing() {
    let mut db = database(&[3, 1, 2], &[]);
    assert_eq!(migrate(&mut db), Ok(3));
    let ledger = db.ledger.clone();
    assert_eq!(migrate(&mut db), Ok(0));
    assert_eq!(db.ledger, ledger);
    assert_eq!(db.attempted, vec![1, 2, 3]);
}

#[test]
fn a_second_run_after_a_failure_commits_nothing_either() {
    let mut db = database(&[1, 2, 3], &[]);
    db.broken = vec![2];
    assert!(migrate(&mut db).is_err());
    assert_eq!(db.ledger, vec![1]);
    assert_eq!(
        migrate(&mut db),
        Err(MigrateError::Application(ApplicationError {
            version: 2,
            applied: 0,
            cause: "statements of 2 failed".to_string(),
        }))
    );
    assert_eq!(db.ledger, vec![1]);
}

#[test]
fn the_run_halts_at_the_first_failing_migration() {
    let mut db = database(&[5, 4, 3, 2, 1], &[]);
    db.broken = vec![3, 5];
    assert_eq!(
        migrate(&mut db),
        Err(MigrateError::Application(ApplicationError {
            version: 3,
            applied: 2,
            cause: "statements of 3 failed".to_string(),
        }))
    );
    assert_eq!(db.ledger, vec![1, 2]);
    assert_eq!(db.attempted, vec![1, 2, 3]);
}

#[test]
fn a_run_whose_first_migration_fails_applies_none() {
    let mut db = database(&[1, 2], &[]);
    db.broken = vec![1];
    assert_eq!(
        migrate(&mut db),
        Err(MigrateError::Application(ApplicationError {
            version: 1,
            applied: 0,
            cause: "statements of 1 failed".to_string(),
        }))
    );
    assert!(db.ledger.is_empty());
    assert_eq!(db.attempted, vec![1]);
}

#[test]
fn after_the_script_is_mended_the_run_resumes_behind_the_applied_prefix() {
    let mut db = database(&[1, 2, 3, 4], &[]);
    db.broken = vec![3];
    assert!(migrate(&mut db).is_err());
    db.broken.clear();
    db.attempted.clear();
    assert_eq!(migrate(&mut db), Ok(2));
    assert_eq!(db.attempted, vec![3, 4]);
    assert_eq!(db.ledger, vec![1, 2, 3, 4]);
}

#[test]
fn a_successful_run_on_an_empty_ledger_records_every_version() {
    let mut db = database(&[1, 2, 3], &[]);
    assert_eq!(migrate(&mut db), Ok(3));
    assert_eq!(db.ledger, vec![1, 2, 3]);
}

#[test]
fn a_partly_filled_ledger_is_resumed() {
    let mut db = database(&[1, 2, 3], &[1, 2]);
    assert_eq!(migrate(&mut db), Ok(1));
    assert_eq!(db.attempted, vec![3]);
    assert_eq!(db.ledger, vec![1, 2, 3]);
}

#[test]
fn versions_in_the_ledger_are_never_applied_again() {
    let mut db = database(&[10, 20, 30, 40], &[30, 10]);
    assert_eq!(migrate(&mut db), Ok(2));
    assert_eq!(db.attempted, vec![20, 40]);
    assert_eq!(db.ledger, vec![30, 10, 20, 40]);
}

#[test]
fn an_empty_source_gives_zero() {
    let mut db = database(&[], &[7]);
    assert_eq!(migrate(&mut db), Ok(0));
    assert!(db.attempted.is_empty());
    assert_eq!(db.ledger, vec![7]);
}

#[test]
fn failing_storage_ends_the_run_before_anything_is_read() {
    let mut db = database(&[1], &[]);
    db.storage_fault = Some("permission denied".to_string());
    assert_eq!(
        migrate(&mut db),
        Err(MigrateError::Ledger(LedgerError::Storage("permission denied".to_string())))
    );
    assert_eq!(db.commands, vec![Command::EnsureStorage]);
    assert!(db.ledger.is_empty());
}

#[test]
fn an_unreadable_location_ends_the_run() {
    let mut db = database(&[], &[]);
    db.location = Err("no such directory".to_string());
    assert_eq!(
        migrate(&mut db),
        Err(MigrateError::Discovery(DiscoveryError::Unreadable("no such directory".to_string())))
    );
    assert_eq!(db.commands, vec![Command::EnsureStorage, Command::Discover]);
}

#[test]
fn a_malformed_source_ends_the_run() {
    let mut db = database(&[1, 2, 1], &[]);
    assert_eq!(
        migrate(&mut db),
        Err(MigrateError::Discovery(DiscoveryError::Malformed(Defect::DuplicateVersion {
            version: 1
        })))
    );
    assert!(db.attempted.is_empty());

    let mut db = database(&[1], &[]);
    db.location = Ok(vec![Migration {
        version: 1,
        description: String::new(),
        statements: String::new(),
    }]);
    assert_eq!(
        migrate(&mut db),
        Err(MigrateError::Discovery(DiscoveryError::Malformed(Defect::EmptyStatements {
            version: 1
        })))
    );
}

#[test]
fn a_ledger_that_cannot_be_listed_ends_the_run() {
    let mut db = database(&[1], &[]);
    db.listing_fault = Some("connection lost".to_string());
    assert_eq!(
        migrate(&mut db),
        Err(MigrateError::Ledger(LedgerError::Listing("connection lost".to_string())))
    );
    assert!(db.attempted.is_empty());
}

#[test]
fn an_event_that_answers_nothing_leaves_the_run_where_it_is() {
    let run = MigrationRun::new();
    let run = continued(run.step(Event::Listed(vec![1])));
    assert_eq!(run.command(), Command::EnsureStorage);
    let run = continued(run.step(Event::Discovered(vec![migration(1)])));
    assert_eq!(run.command(), Command::EnsureStorage);
    let run = continued(run.step(Event::Completed));
    assert_eq!(run.command(), Command::Discover);
    let run = continued(run.step(Event::Completed));
    assert_eq!(run.command(), Command::Discover);
    let run = continued(run.step(Event::Discovered(vec![migration(2), migration(1)])));
    assert_eq!(run.command(), Command::ListApplied);
    let run = continued(run.step(Event::Completed));
    assert_eq!(run.command(), Command::ListApplied);
    let run = continued(run.step(Event::Listed(vec![])));
    assert_eq!(run.command(), Command::Apply { version: 1 });
    let run = continued(run.step(Event::Listed(vec![1, 2])));
    assert_eq!(run.command(), Command::Apply { version: 1 });
    let run = continued(run.step(Event::Completed));
    assert_eq!(run.command(), Command::Apply { version: 2 });
    assert_eq!(done(run.step(Event::Completed)), Ok(2));
}

#[test]
fn the_run_hands_out_the_migration_to_apply() {
    let run = MigrationRun::new();
    let run = continued(run.step(Event::Completed));
    assert!(run.migration().is_none());
    let run = continued(run.step(Event::Discovered(vec![migration(9), migration(4)])));
    assert!(run.migration().is_none());
    let run = continued(run.step(Event::Listed(vec![4])));
    assert_eq!(run.command(), Command::Apply { version: 9 });
    assert_eq!(run.migration(), Some(&migration(9)));
}

#[test]
fn a_failure_reports_the_count_committed_in_this_run_only() {
    let mut db = database(&[1, 2, 3, 4, 5], &[1, 2]);
    db.broken = vec![5];
    assert_eq!(
        migrate(&mut db),
        Err(MigrateError::Application(ApplicationError {
            version: 5,
            applied: 2,
            cause: "statements of 5 failed".to_string(),
        }))
    );
    assert_eq!(db.ledger, vec![1, 2, 3, 4]);
}
