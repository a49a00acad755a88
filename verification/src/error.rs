//! The error taxonomy: classified interpreter errors that still produce a
//! valid, failure-shaped operation sequence, and fatal internal errors that
//! abort the whole log-generation pass.

use vstd::prelude::*;
use crate::word::Address;

verus! {

/// The out-of-gas flavours, keyed by the class of the failing opcode.
#[derive(Clone, Copy, Debug, PartialEq, Eq, Structural)]
pub enum OogError {
    Call,
    Constant,
    Create,
    Log,
    DynamicMemoryExpansion,
    StaticMemoryExpansion,
    Exp,
    MemoryCopy,
    Sha3,
    SloadSstore,
    AccountAccess,
}

/// Which opcode family ran into the call-depth limit.
#[derive(Clone, Copy, Debug, PartialEq, Eq, Structural)]
pub enum DepthError {
    Call,
    Create,
    Create2,
}

/// Which opcode family ran into an insufficient caller balance.
#[derive(Clone, Copy, Debug, PartialEq, Eq, Structural)]
pub enum InsufficientBalanceError {
    Call,
    Create,
    Create2,
}

/// Which creating opcode collided with an existing contract address.
#[derive(Clone, Copy, Debug, PartialEq, Eq, Structural)]
pub enum ContractAddressCollisionError {
    Create,
    Create2,
}

/// Which creating opcode overflowed the creator's nonce.
#[derive(Clone, Copy, Debug, PartialEq, Eq, Structural)]
pub enum NonceUintOverflowError {
    Create,
    Create2,
}

/// A classified execution error: expected, routed to a dedicated handler,
/// and certified as a legitimate failure by the proof system.
#[derive(Clone, Copy, Debug, PartialEq, Eq, Structural)]
pub enum ExecError {
    InvalidJump,
    InvalidOpcode,
    Depth(DepthError),
    OutOfGas(OogError),
    StackOverflow,
    StackUnderflow,
    CodeStoreOutOfGas,
    MaxCodeSizeExceeded,
    InsufficientBalance(InsufficientBalanceError),
    PrecompileFailed,
    WriteProtection,
    ReturnDataOutOfBounds,
    ContractAddressCollision(ContractAddressCollisionError),
    NonceUintOverflow(NonceUintOverflowError),
    InvalidCreationCode,
}

/// A fatal internal failure: the trace and the state database diverged, or
/// bookkeeping arithmetic overflowed.  Never recovered locally; the caller
/// aborts block processing.
#[derive(Clone, Copy, Debug, PartialEq, Eq, Structural)]
pub enum Error {
    /// An account that must exist was not found.
    AccountNotFound(Address),
    /// Gas or refund bookkeeping overflowed its integer type.
    ArithmeticOverflow,
    /// A stack access fell outside the 1024-slot bound.
    StackAddressOutOfBound,
    /// A memory destination offset did not fit the address space.
    MemoryAddressOverflow,
    /// The state's memory and the trace's memory diverged under strict checking.
    TraceMemoryMismatch,
    /// A read or write claimed a current value that the database contradicts:
    /// the trace and the database have diverged.
    StateValueMismatch,
    /// The trace ended where a further step was required.
    IncompleteTrace,
    /// A primitive needed a current call frame and none was live.
    NoCallContext,
    /// A creation transaction targeted an address that already holds code
    /// or a nonzero nonce.
    DeploymentCollision,
}

} // verus!
