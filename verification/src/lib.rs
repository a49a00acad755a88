//! Trace-to-operation-log generation for a WASM-flavored EVM interpreter.
//!
//! Given a sequence of execution trace steps, this library emits the exact
//! ordered sequence of typed read/write operations (stack, memory, storage,
//! call-context, account, access-list, refund, receipt) that a proving
//! circuit later constrains.  The central invariants — a strictly increasing,
//! gapless read/write counter, write consistency against the state database,
//! the call-depth bound, gas monotonicity and reversion round-trips — are
//! stated as contracts and proved.

pub mod error;
pub mod externals;
pub mod exec_step;
pub mod laws;
pub mod opcode;
pub mod opcodes;
pub mod operation;
pub mod reversion;
pub mod state;
pub mod tx;
pub mod wasm_types;
pub mod state_db;
pub mod word;

use vstd::prelude::*;

verus! {

/// A read/write counter value, assigned at append time.
pub type RWCounter = usize;

} // verus!
