use schema_lifecycle::reset::{ResetError, ResetEvent, ResetRun, ResetStep, ResetTransition};

struct World {
    drop: Result<String, &'static str>,
    create: Result<String, &'static str>,
    migrate: Result<usize, &'static str>,
    taken: Vec<ResetStep>,
}

fn world() -> World {
    World {
        drop: Ok("app_development".to_string()),
        create: Ok("app_development".to_string()),
        migrate: Ok(3),
        taken: Vec::new(),
    }
}

fn take(world: &mut World, step: ResetStep) -> ResetEvent<&'static str> {
    world.taken.push(step);
    match step {
        ResetStep::Drop => match &world.drop {
            Ok(name) => ResetEvent::Dropped(name.clone()),
            Err(cause) => ResetEvent::Failed(*cause),
        },
        ResetStep::Create => match &world.create {
            Ok(name) => ResetEvent::Created(name.clone()),
            Err(cause) => ResetEvent::Failed(*cause),
        },
        ResetStep::Migrate => match &world.migrate {
            Ok(count) => ResetEvent::Migrated(*count),
            Err(cause) => ResetEvent::Failed(*cause),
        },
    }
}

fn reset(world: &mut World) -> Result<String, ResetError<&'static str>> {
    let mut run = ResetRun::new();
    loop {
        let event = take(world, run.command());
        match run.step(event) {
            ResetTransition::Continue(next) => run = next,
            ResetTransition::Done(outcome) => return outcome,
        }
    }
}

#[test]
fn a_reset_drops_creates_and_migrates() {
    let mut world = world();
    assert_eq!(reset(&mut world), Ok("app_development".to_string()));
    assert_eq!(world.taken, vec![ResetStep::Drop, ResetStep::Create, ResetStep::Migrate]);
}

#[test]
fn a_reset_gives_the_name_that_create_gave() {
    let mut world = world();
    world.drop = Ok("dropped".to_string());
    world.create = Ok("created".to_string());
    assert_eq!(reset(&mut world), Ok("created".to_string()));
}

#[test]
fn a_failing_create_keeps_migrate_from_being_taken() {
    let mut world = world();
    world.create = Err("already exists");
    assert_eq!(
        reset(&mut world),
        Err(ResetError { step: ResetStep::Create, cause: "already exists" })
    );
    assert_eq!(world.taken, vec![ResetStep::Drop, ResetStep::Create]);
}

#[test]
fn a_failing_drop_ends_the_reset_at_once() {
    let mut world = world();
    world.drop = Err("database is being accessed by other users");
    world.create = Err("already exists");
    assert_eq!(
        reset(&mut world),
        Err(ResetError {
            step: ResetStep::Drop,
            cause: "database is being accessed by other users"
        })
    );
    assert_eq!(world.taken, vec![ResetStep::Drop]);
}

#[test]
fn a_failing_migrate_is_reported_after_drop_and_create() {
    let mut world = world();
    world.migrate = Err("migration 2 failed");
    assert_eq!(
        reset(&mut world),
        Err(ResetError { step: ResetStep::Migrate, cause: "migration 2 failed" })
    );
    assert_eq!(world.taken, vec![ResetStep::Drop, ResetStep::Create, ResetStep::Migrate]);
}

#[test]
fn a_reset_ignores_an_event_of_another_step() {
    let run = ResetRun::new();
    assert_eq!(run.command(), ResetStep::Drop);
    let transition: ResetTransition<&str> = run.step(ResetEvent::Migrated(1));
    assert_eq!(transition, ResetTransition::Continue(ResetRun::Dropping));
    let transition: ResetTransition<&str> =
        ResetRun::Creating.step(ResetEvent::Dropped("x".to_string()));
    assert_eq!(transition, ResetTransition::Continue(ResetRun::Creating));
    let waiting = ResetRun::Migrating { database: "x".to_string() };
    assert_eq!(waiting.command(), ResetStep::Migrate);
    let transition: ResetTransition<&str> = waiting.step(ResetEvent::Created("y".to_string()));
    assert_eq!(
        transition,
        ResetTransition::Continue(ResetRun::Migrating { database: "x".to_string() })
    );
}
