//! The opcode set of the WASM-flavored EVM interpreter, with the
//! classification helpers the error dispatcher needs.

use vstd::prelude::*;
use crate::error::OogError;

verus! {

/// Every opcode the dispatch table distinguishes: the WASM instruction set
/// executed by the interpreter plus the EVM host opcodes exposed to it.
#[derive(Clone, Copy, Debug, PartialEq, Eq, Structural)]
#[allow(non_camel_case_types)]
pub enum OpcodeId {
    // WASM control opcodes
    Unreachable,
    End,
    Return,
    Br,
    BrIf,
    BrTable,
    Call,
    CallIndirect,
    Drop,
    Select,
    // WASM locals and globals
    GetLocal,
    SetLocal,
    TeeLocal,
    GetGlobal,
    SetGlobal,
    // WASM constants
    I32Const,
    I64Const,
    // WASM comparison opcodes
    I32Eqz,
    I64Eqz,
    I32Eq,
    I32Ne,
    I32LtS,
    I32GtS,
    I32LeS,
    I32GeS,
    I32LtU,
    I32GtU,
    I32LeU,
    I32GeU,
    I64Eq,
    I64Ne,
    I64LtS,
    I64GtS,
    I64LeS,
    I64GeS,
    I64LtU,
    I64GtU,
    I64LeU,
    I64GeU,
    // WASM arithmetic and bit opcodes
    I32Add,
    I32Sub,
    I32Mul,
    I32DivS,
    I32DivU,
    I32RemS,
    I32RemU,
    I32And,
    I32Or,
    I32Xor,
    I32Shl,
    I32ShrS,
    I32ShrU,
    I32Rotl,
    I32Rotr,
    I64Add,
    I64Sub,
    I64Mul,
    I64DivS,
    I64DivU,
    I64RemS,
    I64RemU,
    I64And,
    I64Or,
    I64Xor,
    I64Shl,
    I64ShrS,
    I64ShrU,
    I64Rotl,
    I64Rotr,
    // WASM conversion opcodes
    I64ExtendUI32,
    I64ExtendSI32,
    I32WrapI64,
    I32Ctz,
    I64Ctz,
    I32Clz,
    I64Clz,
    I32Popcnt,
    I64Popcnt,
    // WASM memory opcodes
    I32Load,
    I32Load8S,
    I32Load8U,
    I32Load16S,
    I32Load16U,
    I64Load,
    I64Load8S,
    I64Load8U,
    I64Load16S,
    I64Load16U,
    I64Load32S,
    I64Load32U,
    I32Store,
    I32Store8,
    I32Store16,
    I64Store,
    I64Store8,
    I64Store16,
    I64Store32,
    // EVM opcodes
    STOP,
    SHA3,
    ADDRESS,
    BALANCE,
    ORIGIN,
    CALLER,
    CALLVALUE,
    CALLDATASIZE,
    CALLDATALOAD,
    CALLDATACOPY,
    GASPRICE,
    CODECOPY,
    CODESIZE,
    EXTCODESIZE,
    EXTCODECOPY,
    RETURNDATASIZE,
    RETURNDATACOPY,
    EXTCODEHASH,
    BLOCKHASH,
    COINBASE,
    TIMESTAMP,
    NUMBER,
    DIFFICULTY,
    GASLIMIT,
    CHAINID,
    SELFBALANCE,
    BASEFEE,
    SLOAD,
    SSTORE,
    PC,
    MSIZE,
    GAS,
    JUMPDEST,
    LOG0,
    LOG1,
    LOG2,
    LOG3,
    LOG4,
    CALL,
    CALLCODE,
    DELEGATECALL,
    STATICCALL,
    RETURN,
    REVERT,
    SELFDESTRUCT,
    CREATE,
    CREATE2,
}

/// Whether the opcode opens a new call frame (EVM call and create families).
pub open spec fn spec_is_call_or_create(op: OpcodeId) -> bool {
    op == OpcodeId::CALL || op == OpcodeId::CALLCODE || op == OpcodeId::DELEGATECALL
        || op == OpcodeId::STATICCALL || op == OpcodeId::CREATE || op == OpcodeId::CREATE2
}

/// Whether the opcode creates a contract.
pub open spec fn spec_is_create(op: OpcodeId) -> bool {
    op == OpcodeId::CREATE || op == OpcodeId::CREATE2
}

/// Whether the opcode writes persistent state and is therefore forbidden
/// inside a static call.
pub open spec fn spec_writes_state(op: OpcodeId) -> bool {
    op == OpcodeId::SSTORE || op == OpcodeId::SELFDESTRUCT || op == OpcodeId::LOG0
        || op == OpcodeId::LOG1 || op == OpcodeId::LOG2 || op == OpcodeId::LOG3
        || op == OpcodeId::LOG4 || op == OpcodeId::CREATE || op == OpcodeId::CREATE2
}

/// The out-of-gas flavour an opcode's gas shortfall is classified as.
pub open spec fn spec_oog_class(op: OpcodeId) -> OogError {
    if op == OpcodeId::SLOAD || op == OpcodeId::SSTORE {
        OogError::SloadSstore
    } else if op == OpcodeId::LOG0 || op == OpcodeId::LOG1 || op == OpcodeId::LOG2
        || op == OpcodeId::LOG3 || op == OpcodeId::LOG4 {
        OogError::Log
    } else if op == OpcodeId::CALL || op == OpcodeId::CALLCODE || op == OpcodeId::DELEGATECALL
        || op == OpcodeId::STATICCALL {
        OogError::Call
    } else if op == OpcodeId::CREATE || op == OpcodeId::CREATE2 {
        OogError::Create
    } else if op == OpcodeId::SHA3 {
        OogError::Sha3
    } else if op == OpcodeId::CALLDATACOPY || op == OpcodeId::CODECOPY
        || op == OpcodeId::EXTCODECOPY || op == OpcodeId::RETURNDATACOPY {
        OogError::MemoryCopy
    } else if op == OpcodeId::BALANCE || op == OpcodeId::EXTCODESIZE
        || op == OpcodeId::EXTCODEHASH {
        OogError::AccountAccess
    } else if op == OpcodeId::RETURN || op == OpcodeId::REVERT {
        OogError::DynamicMemoryExpansion
    } else {
        OogError::Constant
    }
}

impl OpcodeId {
    pub fn is_call_or_create(&self) -> (r: bool)
        ensures
            r == spec_is_call_or_create(*self),
    {
        matches!(
            self,
            OpcodeId::CALL | OpcodeId::CALLCODE | OpcodeId::DELEGATECALL | OpcodeId::STATICCALL
                | OpcodeId::CREATE | OpcodeId::CREATE2
        )
    }

    pub fn is_create(&self) -> (r: bool)
        ensures
            r == spec_is_create(*self),
    {
        matches!(self, OpcodeId::CREATE | OpcodeId::CREATE2)
    }

    pub fn writes_state(&self) -> (r: bool)
        ensures
            r == spec_writes_state(*self),
    {
        matches!(
            self,
            OpcodeId::SSTORE | OpcodeId::SELFDESTRUCT | OpcodeId::LOG0 | OpcodeId::LOG1
                | OpcodeId::LOG2 | OpcodeId::LOG3 | OpcodeId::LOG4 | OpcodeId::CREATE
                | OpcodeId::CREATE2
        )
    }

    pub fn oog_class(&self) -> (r: OogError)
        ensures
            r == spec_oog_class(*self),
    {
        match self {
            OpcodeId::SLOAD | OpcodeId::SSTORE => OogError::SloadSstore,
            OpcodeId::LOG0 | OpcodeId::LOG1 | OpcodeId::LOG2 | OpcodeId::LOG3 | OpcodeId::LOG4 =>
                OogError::Log,
            OpcodeId::CALL | OpcodeId::CALLCODE | OpcodeId::DELEGATECALL | OpcodeId::STATICCALL =>
                OogError::Call,
            OpcodeId::CREATE | OpcodeId::CREATE2 => OogError::Create,
            OpcodeId::SHA3 => OogError::Sha3,
            OpcodeId::CALLDATACOPY | OpcodeId::CODECOPY | OpcodeId::EXTCODECOPY
                | OpcodeId::RETURNDATACOPY => OogError::MemoryCopy,
            OpcodeId::BALANCE | OpcodeId::EXTCODESIZE | OpcodeId::EXTCODEHASH =>
                OogError::AccountAccess,
            OpcodeId::RETURN | OpcodeId::REVERT => OogError::DynamicMemoryExpansion,
            _ => OogError::Constant,
        }
    }
}

} // verus!
