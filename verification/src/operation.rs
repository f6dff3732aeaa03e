//! The five lifecycle operations and what is reported of each.

use vstd::prelude::*;

verus! {

/// The operations on a database, a closed set.
#[derive(Debug, Clone, Copy, PartialEq, Eq, Structural)]
pub enum Operation {
    Drop,
    Create,
    Migrate,
    Seed,
    Reset,
}

/// What an operation that succeeded gives back.
#[derive(Debug, Clone, PartialEq, Eq)]
pub enum Outcome {
    /// The database of this name was dropped.
    Dropped { database: String },
    /// The database of this name was created.
    Created { database: String },
    /// This many migrations were newly applied.
    Migrated { applied: usize },
    /// The seed batch was committed.
    Seeded,
    /// The database of this name was dropped, created and migrated.
    Reset { database: String },
}

/// The operation that gives `outcome`.
pub open spec fn operation_of(outcome: Outcome) -> Operation {
    match outcome {
        Outcome::Dropped { .. } => Operation::Drop,
        Outcome::Created { .. } => Operation::Create,
        Outcome::Migrated { .. } => Operation::Migrate,
        Outcome::Seeded => Operation::Seed,
        Outcome::Reset { .. } => Operation::Reset,
    }
}

/// The ten digits, in order.
pub open spec fn digits() -> Seq<char> {
    "0123456789"@
}

/// The digit for `d`, as text of length one.
pub open spec fn digit(d: nat) -> Seq<char>
    recommends
        d < 10,
{
    digits().subrange(d as int, d as int + 1)
}

/// `n` in decimal, without leading zeros.
pub open spec fn decimal_of(n: nat) -> Seq<char>
    decreases n,
{
    if n < 10 {
        digit(n)
    } else {
        decimal_of(n / 10) + digit(n % 10)
    }
}

/// What `operation` is said to be doing while it runs.
pub open spec fn doing(operation: Operation) -> Seq<char> {
    match operation {
        Operation::Drop => "Dropping"@,
        Operation::Create => "Creating"@,
        Operation::Migrate => "Migrating"@,
        Operation::Seed => "Seeding"@,
        Operation::Reset => "Resetting"@,
    }
}

/// The line that announces `operation` on the database of `environment`.
pub open spec fn announcement_of(operation: Operation, environment: Seq<char>) -> Seq<char> {
    doing(operation) + " "@ + environment + " database…"@
}

/// The line that reports `outcome`.
pub open spec fn success_of(outcome: Outcome) -> Seq<char> {
    match outcome {
        Outcome::Dropped { database } => "Dropped database "@ + database@ + " successfully."@,
        Outcome::Created { database } => "Created database "@ + database@ + " successfully."@,
        Outcome::Migrated { applied } => decimal_of(applied as nat) + " migrations applied."@,
        Outcome::Seeded => "Seeded database successfully."@,
        Outcome::Reset { database } => "Reset database "@ + database@ + " successfully."@,
    }
}

/// The line that reports that `operation` failed.
pub open spec fn failure_of(operation: Operation) -> Seq<char> {
    match operation {
        Operation::Drop => "Could not drop database!"@,
        Operation::Create => "Could not create database!"@,
        Operation::Migrate => "Could not migrate database!"@,
        Operation::Seed => "Could not seed database!"@,
        Operation::Reset => "Could not reset database!"@,
    }
}

/// `n` in decimal, without leading zeros.
pub fn decimal(n: usize) -> (text: String)
    ensures
        text@ == decimal_of(n as nat),
    decreases n,
{
    let all = "0123456789";
    proof {
        reveal_strlit("0123456789");
    }
    let last = all.substring_ascii(n % 10, n % 10 + 1);
    if n < 10 {
        String::from_str(last)
    } else {
        decimal(n / 10).concat(last)
    }
}

impl Operation {
    /// The line that announces this operation on the database of
    /// `environment`.
    pub fn announcement(&self, environment: &str) -> (line: String)
        ensures
            line@ == announcement_of(*self, environment@),
    {
        let doing = match self {
            Operation::Drop => "Dropping",
            Operation::Create => "Creating",
            Operation::Migrate => "Migrating",
            Operation::Seed => "Seeding",
            Operation::Reset => "Resetting",
        };
        String::from_str(doing).concat(" ").concat(environment).concat(" database…")
    }

    /// The line that reports that this operation failed.
    pub fn failure(&self) -> (line: &'static str)
        ensures
            line@ == failure_of(*self),
    {
        match self {
            Operation::Drop => "Could not drop database!",
            Operation::Create => "Could not create database!",
            Operation::Migrate => "Could not migrate database!",
            Operation::Seed => "Could not seed database!",
            Operation::Reset => "Could not reset database!",
        }
    }
}

impl Outcome {
    /// The operation that gave this outcome.
    pub fn operation(&self) -> (operation: Operation)
        ensures
            operation == operation_of(*self),
    {
        match self {
            Outcome::Dropped { .. } => Operation::Drop,
            Outcome::Created { .. } => Operation::Create,
            Outcome::Migrated { .. } => Operation::Migrate,
            Outcome::Seeded => Operation::Seed,
            Outcome::Reset { .. } => Operation::Reset,
        }
    }

    /// The line that reports this outcome.
    pub fn success(&self) -> (line: String)
        ensures
            line@ == success_of(*self),
    {
        match self {
            Outcome::Dropped { database } => String::from_str("Dropped database ").concat(
                database.as_str(),
            ).concat(" successfully."),
            Outcome::Created { database } => String::from_str("Created database ").concat(
                database.as_str(),
            ).concat(" successfully."),
            Outcome::Migrated { applied } => decimal(*applied).concat(" migrations applied."),
            Outcome::Seeded => String::from_str("Seeded database successfully."),
            Outcome::Reset { database } => String::from_str("Reset database ").concat(
                database.as_str(),
            ).concat(" successfully."),
        }
    }
}

} // verus!
