//! On-ledger logic of a fixed-denomination privacy pool: the pool state and
//! its ring of recent Merkle roots, the storage layout, the instruction
//! format, and the checks that initialization, root pushes and withdrawals
//! make before the host moves any funds.

pub mod address;
pub mod bytes;
pub mod error;
pub mod history;
pub mod instruction;
pub mod processor;
pub mod state;
