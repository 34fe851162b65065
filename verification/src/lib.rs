//! A minimal state-transition runtime: pallets that each own a slice of
//! state, a runtime that routes calls to them, and a block executor.

pub mod balances;
pub mod numeric;
pub mod proof_of_existence;
pub mod runtime;
pub mod storage;
pub mod support;
pub mod system;
pub mod types;

pub use runtime::{Runtime, RuntimeCall};
