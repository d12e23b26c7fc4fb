//! A counter kept in one account: the instruction codec, the counter record,
//! the account resolver and the transition engine that applies a decoded
//! instruction to the accounts handed in by the host.

pub mod address;
pub mod error;
pub mod instruction;
pub mod state;
pub mod processor;
