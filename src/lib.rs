//! A transaction simulation core: numeric codec, account state overrides,
//! outcome classification, response assembly and session bookkeeping.
//! The bytecode engine and the remote state source are external collaborators.

pub mod numeric;
pub mod state;
pub mod outcome;
pub mod session;
pub mod trace;
