use schema_lifecycle::operation::{decimal, Operation, Outcome};

#[test]
fn each_operation_is_announced() {
    assert_eq!(Operation::Drop.announcement("development"), "Dropping development database…");
    assert_eq!(Operation::Create.announcement("test"), "Creating test database…");
    assert_eq!(Operation::Migrate.announcement("production"), "Migrating production database…");
    assert_eq!(Operation::Seed.announcement("development"), "Seeding development database…");
    assert_eq!(Operation::Reset.announcement(""), "Resetting  database…");
}

#[test]
fn each_outcome_is_reported() {
    assert_eq!(
        Outcome::Dropped { database: "app".to_string() }.success(),
        "Dropped database app successfully."
    );
    assert_eq!(
        Outcome::Created { database: "app".to_string() }.success(),
        "Created database app successfully."
    );
    assert_eq!(Outcome::Migrated { applied: 0 }.success(), "0 migrations applied.");
    assert_eq!(Outcome::Migrated { applied: 12 }.success(), "12 migrations applied.");
    assert_eq!(Outcome::Seeded.success(), "Seeded database successfully.");
    assert_eq!(
        Outcome::Reset { database: "app".to_string() }.success(),
        "Reset database app successfully."
    );
}

#[test]
fn each_failure_is_reported() {
    assert_eq!(Operation::Drop.failure(), "Could not drop database!");
    assert_eq!(Operation::Create.failure(), "Could not create database!");
    assert_eq!(Operation::Migrate.failure(), "Could not migrate database!");
    assert_eq!(Operation::Seed.failure(), "Could not seed database!");
    assert_eq!(Operation::Reset.failure(), "Could not reset database!");
}

#[test]
fn an_outcome_knows_its_operation() {
    assert_eq!(Outcome::Dropped { database: String::new() }.operation(), Operation::Drop);
    assert_eq!(Outcome::Created { database: String::new() }.operation(), Operation::Create);
    assert_eq!(Outcome::Migrated { applied: 1 }.operation(), Operation::Migrate);
    assert_eq!(Outcome::Seeded.operation(), Operation::Seed);
    assert_eq!(Outcome::Reset { database: String::new() }.operation(), Operation::Reset);
}

#[test]
fn decimal_writes_numbers_as_display_does() {
    assert_eq!(decimal(0), "0");
    assert_eq!(decimal(9), "9");
    assert_eq!(decimal(10), "10");
    assert_eq!(decimal(1005), "1005");
    assert_eq!(decimal(usize::MAX), usize::MAX.to_string());
    for n in 0..3000usize {
        assert_eq!(decimal(n), n.to_string());
    }
}
