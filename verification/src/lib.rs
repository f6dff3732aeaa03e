//! Lifecycle management for a relational database schema: ordered, versioned
//! migrations tracked in a ledger, seeding, and the drop / create / migrate
//! sequence that resets a database.

pub mod descriptor;
pub mod engine;
pub mod guarantees;
pub mod ledger;
pub mod migration;
pub mod operation;
pub mod preflight;
pub mod reset;
pub mod seed;
pub mod store;
