use schema_lifecycle::seed::{
    SeedCommand, SeedError, SeedEvent, SeedRun, SeedStage, SeedTransition,
};

/// A database held in memory whose transactions take effect on commit.
struct Database {
    committed: Vec<String>,
    staged: Option<Vec<String>>,
    batch: Vec<String>,
    begin_fault: Option<&'static str>,
    broken: Option<usize>,
    commit_fault: Option<&'static str>,
    commands: Vec<SeedCommand>,
}

fn database(batch: &[&str]) -> Database {
    Database {
        committed: vec!["INSERT INTO users VALUES ('root')".to_string()],
        staged: None,
        batch: batch.iter().map(|s| s.to_string()).collect(),
        begin_fault: None,
        broken: None,
        commit_fault: None,
        commands: Vec::new(),
    }
}

fn carry_out(db: &mut Database, command: SeedCommand) -> SeedEvent<&'static str> {
    db.commands.push(command);
    match command {
        SeedCommand::Begin => match db.begin_fault {
            Some(cause) => SeedEvent::Failed(cause),
            None => {
                db.staged = Some(Vec::new());
                SeedEvent::Completed
            }
        },
        SeedCommand::Execute => {
            let staged = db.staged.get_or_insert_with(Vec::new);
            for (at, statement) in db.batch.iter().enumerate() {
                if db.broken == Some(at) {
                    return SeedEvent::Failed("statement failed");
                }
                staged.push(statement.clone());
            }
            SeedEvent::Completed
        }
        SeedCommand::Commit => {
            let staged = db.staged.take().unwrap_or_default();
            match db.commit_fault {
                Some(cause) => SeedEvent::Failed(cause),
                None => {
                    db.committed.extend(staged);
                    SeedEvent::Completed
                }
            }
        }
        SeedCommand::RollBack => {
            db.staged = None;
            SeedEvent::Completed
        }
    }
}

fn seed(db: &mut Database) -> Result<(), SeedError<&'static str>> {
    let mut run = SeedRun::new();
    loop {
        let event = carry_out(db, run.command());
        match run.step(event) {
            SeedTransition::Continue(next) => run = next,
            SeedTransition::Done(outcome) => return outcome,
        }
    }
}

#[test]
fn a_batch_that_succeeds_is_committed_whole() {
    let mut db = database(&["INSERT 1", "INSERT 2"]);
    assert_eq!(seed(&mut db), Ok(()));
    assert_eq!(
        db.committed,
        vec!["INSERT INTO users VALUES ('root')", "INSERT 1", "INSERT 2"]
    );
    assert_eq!(db.staged, None);
    assert_eq!(
        db.commands,
        vec![SeedCommand::Begin, SeedCommand::Execute, SeedCommand::Commit]
    );
}

#[test]
fn a_batch_whose_second_statement_fails_leaves_the_database_unchanged() {
    let mut db = database(&["INSERT 1", "INSERT oops", "INSERT 3"]);
    db.broken = Some(1);
    let before = db.committed.clone();
    assert_eq!(
        seed(&mut db),
        Err(SeedError { stage: SeedStage::Execute, cause: "statement failed" })
    );
    assert_eq!(db.committed, before);
    assert_eq!(db.staged, None);
    assert_eq!(
        db.commands,
        vec![SeedCommand::Begin, SeedCommand::Execute, SeedCommand::RollBack]
    );
}

#[test]
fn seeding_again_executes_the_batch_again() {
    let mut db = database(&["INSERT 1"]);
    assert_eq!(seed(&mut db), Ok(()));
    assert_eq!(seed(&mut db), Ok(()));
    assert_eq!(
        db.committed,
        vec!["INSERT INTO users VALUES ('root')", "INSERT 1", "INSERT 1"]
    );
}

#[test]
fn a_transaction_that_cannot_be_opened_ends_the_run() {
    let mut db = database(&["INSERT 1"]);
    db.begin_fault = Some("connection lost");
    assert_eq!(
        seed(&mut db),
        Err(SeedError { stage: SeedStage::Begin, cause: "connection lost" })
    );
    assert_eq!(db.commands, vec![SeedCommand::Begin]);
    assert_eq!(db.committed.len(), 1);
}

#[test]
fn a_commit_that_fails_is_reported_and_nothing_is_kept() {
    let mut db = database(&["INSERT 1"]);
    db.commit_fault = Some("serialization failure");
    assert_eq!(
        seed(&mut db),
        Err(SeedError { stage: SeedStage::Commit, cause: "serialization failure" })
    );
    assert_eq!(db.committed.len(), 1);
    assert_eq!(db.staged, None);
}

#[test]
fn the_batch_failure_is_reported_even_when_the_rollback_fails() {
    let run: SeedRun<&str> = SeedRun::new();
    assert_eq!(run.command(), SeedCommand::Begin);
    let run = match run.step(SeedEvent::Completed) {
        SeedTransition::Continue(run) => run,
        other => panic!("unexpected {:?}", other),
    };
    assert_eq!(run, SeedRun::Executing);
    let run = match run.step(SeedEvent::Failed("syntax error")) {
        SeedTransition::Continue(run) => run,
        other => panic!("unexpected {:?}", other),
    };
    assert_eq!(run, SeedRun::RollingBack { cause: "syntax error" });
    assert_eq!(run.command(), SeedCommand::RollBack);
    assert_eq!(
        run.step(SeedEvent::Failed("connection lost")),
        SeedTransition::Done(Err(SeedError { stage: SeedStage::Execute, cause: "syntax error" }))
    );
}

#[test]
fn each_seed_step_follows_the_rule() {
    assert_eq!(
        SeedRun::<u8>::Beginning.step(SeedEvent::Failed(1)),
        SeedTransition::Done(Err(SeedError { stage: SeedStage::Begin, cause: 1 }))
    );
    assert_eq!(
        SeedRun::<u8>::Executing.step(SeedEvent::Completed),
        SeedTransition::Continue(SeedRun::Committing)
    );
    assert_eq!(SeedRun::<u8>::Committing.command(), SeedCommand::Commit);
    assert_eq!(
        SeedRun::<u8>::Committing.step(SeedEvent::Completed),
        SeedTransition::Done(Ok(()))
    );
    assert_eq!(
        SeedRun::<u8>::Committing.step(SeedEvent::Failed(3)),
        SeedTransition::Done(Err(SeedError { stage: SeedStage::Commit, cause: 3 }))
    );
    assert_eq!(
        SeedRun::RollingBack { cause: 2u8 }.step(SeedEvent::Completed),
        SeedTransition::Done(Err(SeedError { stage: SeedStage::Execute, cause: 2 }))
    );
}
