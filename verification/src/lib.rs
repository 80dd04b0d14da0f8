//! A small state machine in the shape of a ledger: modules that each own a
//! part of the state, a runtime that routes calls to them, and blocks of
//! extrinsics that are executed in sequence.
//!
//! Every function is stated over a mathematical model of the state (maps
//! from accounts to nonces and balances, from content to owners) and proved
//! against it.

pub mod balances;
pub mod primitives;
pub mod proof_of_existence;
pub mod runtime;
pub mod storage;
pub mod support;
pub mod system;
pub mod types;

pub use crate::runtime::{Runtime, RuntimeCall};
