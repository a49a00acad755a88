//! Execution steps, call frames and the reference trace consumed from the
//! external interpreter.

use vstd::prelude::*;
use crate::error::ExecError;
use crate::opcode::OpcodeId;
use crate::operation::OpEnum;
use crate::word::{Address, Word};

verus! {

/// The protocol's maximum call depth: a frame deeper than this is never
/// pushed; the attempt is classified as a depth error instead.
pub const MAX_CALL_DEPTH: usize = 1024;

/// What a row of the witness stands for: a real opcode or one of the two
/// synthetic transaction boundary steps.
#[derive(Clone, Copy, Debug, PartialEq, Eq, Structural)]
pub enum ExecState {
    BeginTx,
    EndTx,
    Op(OpcodeId),
}

/// One row of the execution witness, bound to the call it ran in.  Its
/// `bus_mapping_instance` lists, in order, the indices of the operations in
/// the block's operation container that this step produced.
#[derive(Clone, Debug)]
pub struct ExecStep {
    pub exec_state: ExecState,
    pub pc: u64,
    pub stack_size: usize,
    pub gas_left: u64,
    pub gas_cost: u64,
    pub call_index: usize,
    pub rwc_start: usize,
    pub bus_mapping_instance: Vec<usize>,
    pub error: Option<ExecError>,
    pub function_index: u32,
    pub num_locals: u32,
    pub max_stack_height: u32,
    pub log_id: usize,
}

/// One contract invocation frame.
#[derive(Clone, Copy, Debug, PartialEq, Eq, Structural)]
pub struct Call {
    /// Unique, monotonically assigned identifier of this call.
    pub call_id: usize,
    /// The frame's position in the frame arena of its transaction.
    pub caller_id: usize,
    pub caller_address: Address,
    /// The callee (code-owning) address.
    pub address: Address,
    pub value: Word,
    pub depth: usize,
    pub is_static: bool,
    pub is_create: bool,
    /// Whether this frame's effects survive the whole transaction.
    pub is_persistent: bool,
    pub is_success: bool,
    /// The counter value at which this frame's operations start being undone
    /// should it or an ancestor revert.
    pub rw_counter_end_of_reversion: usize,
    pub code_hash: Word,
    pub call_data_offset: u64,
    pub call_data_length: u64,
}

/// The mutable companion of a live call frame: its memory snapshot and the
/// log of reversible operations performed under it.
#[derive(Debug)]
pub struct CallContext {
    /// Index into the transaction's call arena.
    pub call_index: usize,
    /// Snapshot of the interpreter's memory for this frame.
    pub memory: Vec<u8>,
    /// Reversible operations pushed while this frame was live.
    pub reversible: Vec<OpEnum>,
}

/// One step of the reference trace: the interpreter's externally observed
/// state just before the opcode executes.
#[derive(Clone, Debug)]
pub struct TraceStep {
    pub op: OpcodeId,
    pub pc: u64,
    pub gas: u64,
    pub gas_cost: u64,
    pub depth: usize,
    /// The operand stack, top element last.
    pub stack: Vec<u64>,
    /// The opcode's result bytes, observable one step later (used by the
    /// stack-to-memory opcodes whose effect lands in memory).
    pub result_memory: Vec<u8>,
    /// The full shared memory buffer at this step.
    pub global_memory: Vec<u8>,
}

impl TraceStep {
    /// The stack slot address of the `i`-th element from the top: slot
    /// addresses grow downward from the stack's upper bound.
    pub open spec fn spec_nth_last_filled(self, i: int) -> int {
        1024 - self.stack@.len() + i
    }

    /// The value of the `i`-th stack element from the top.
    pub open spec fn spec_nth_last(self, i: int) -> u64 {
        self.stack@[self.stack@.len() - 1 - i]
    }

    pub fn nth_last(&self, i: usize) -> (r: Result<u64, crate::error::Error>)
        ensures
            match r {
                Ok(v) => i < self.stack@.len() && v == self.spec_nth_last(i as int),
                Err(e) => i >= self.stack@.len() && e == crate::error::Error::StackAddressOutOfBound,
            },
    {
        if i < self.stack.len() {
            Ok(self.stack[self.stack.len() - 1 - i])
        } else {
            Err(crate::error::Error::StackAddressOutOfBound)
        }
    }

    pub fn nth_last_filled(&self, i: usize) -> (r: usize)
        requires
            self.stack@.len() <= 1024,
            i < self.stack@.len(),
        ensures
            r == self.spec_nth_last_filled(i as int),
            r < 1024,
    {
        1024 - self.stack.len() + i
    }
}

/// Initial value of one interpreter global variable.
#[derive(Clone, Copy, Debug, PartialEq, Eq, Structural)]
pub struct GlobalInit {
    pub index: u32,
    pub value: u64,
}

/// Entry metadata of one traced function call.
#[derive(Clone, Copy, Debug, PartialEq, Eq, Structural)]
pub struct FunctionCall {
    pub fn_index: u32,
    pub num_locals: u32,
    pub max_stack_height: u32,
}

/// The whole reference trace of one transaction.
#[derive(Debug)]
pub struct Trace {
    pub steps: Vec<TraceStep>,
    /// Total gas consumed, authoritative when `steps` is empty.
    pub gas: u64,
    /// The interpreter's initial global memory image.
    pub global_memory: Vec<u8>,
    /// Initial values of the interpreter's global variables.
    pub globals: Vec<GlobalInit>,
    /// Metadata of the traced function calls, entry function first.
    pub function_calls: Vec<FunctionCall>,
}

} // verus!
