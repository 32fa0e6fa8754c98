pub mod account;
pub mod engine;
pub mod id;
pub mod ledger_entry;
pub mod transaction;
pub mod laws;
