//! A payment engine: it applies deposits, withdrawals, disputes, resolves and
//! chargebacks to client accounts, with fixed-point amounts at four decimal places.

pub mod engine;
pub mod error;
pub mod output;
pub mod source;
pub mod util;
