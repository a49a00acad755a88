//! Per-opcode operation generation and the two dispatch tables.
//!
//! Every opcode maps to a handler shape; unknown or not-yet-modeled opcodes
//! route to the placeholder handler, which degrades to a bare step rather
//! than losing data silently.  A classified execution error routes through
//! its own table to the handler that emits the correct partial operation
//! sequence for that failure.

use vstd::prelude::*;
use crate::error::{Error, ExecError, OogError};
use crate::exec_step::{ExecState, ExecStep, TraceStep};
use crate::opcode::OpcodeId;
use crate::operation::{AccountField, CallContextField, OpEnum, Operation, RW};
use crate::state::CircuitInputState;
use crate::state_db::DbKey;
use crate::word::Word;

verus! {

/// The handler shapes the dispatch table routes to.
#[derive(Clone, Copy, Debug, PartialEq, Eq, Structural)]
pub enum Handler {
    /// Placeholder: a bare step with no operations.
    Dummy,
    /// Opcode-level termination of the current call.
    Stop,
    /// Pops `n_pop` stack slots top-down and writes `n_push` results from
    /// the next step's stack; with `is_err` the step only pops and then
    /// returns out of the failed call.
    StackOnly { n_pop: usize, n_push: usize, is_err: bool },
    /// Pops a destination offset plus `n_pop` operands and copies the
    /// result bytes into memory at that offset.  `el_bytes` selects where
    /// the result is read from: 0 for the step's own result buffer, 32 or 8
    /// for a fixed-width read out of the next step's memory.
    StackToMemory { n_pop: usize, el_bytes: usize },
    /// The call-value-to-memory opcode.
    Callvalue,
    /// The calldata-size opcode: a call-context read of the data length,
    /// then its bytes copied to memory.
    Calldatasize,
    /// The simplified self-destruction model.
    SelfDestruct,
    /// The out-of-gas path of the storage opcodes.
    OogSloadSstore,
    /// A failing call- or create-family opcode: the operands are popped
    /// and the child frame is still parsed and entered (and immediately
    /// left), so later steps reference a valid call id.  `n_pop` carries
    /// the family's operand convention: 7 for a with-value call, 6
    /// without, 4 for the creating shapes.
    CallFamilyError { n_pop: usize },
}

/// The dispatch table as a function: the handler shape of every opcode.
pub open spec fn spec_handler_of(op: OpcodeId) -> Handler {
    match op {
        OpcodeId::Unreachable => Handler::Stop,
        OpcodeId::End => Handler::Stop,
        OpcodeId::I32Const | OpcodeId::I64Const => Handler::StackOnly {
            n_pop: 0,
            n_push: 1,
            is_err: false,
        },
        // binary comparison, arithmetic and bit opcodes
        OpcodeId::I32Eq | OpcodeId::I32Ne | OpcodeId::I32LtS | OpcodeId::I32GtS
            | OpcodeId::I32LeS | OpcodeId::I32GeS | OpcodeId::I32LtU | OpcodeId::I32GtU
            | OpcodeId::I32LeU | OpcodeId::I32GeU | OpcodeId::I64Eq | OpcodeId::I64Ne
            | OpcodeId::I64LtS | OpcodeId::I64GtS | OpcodeId::I64LeS | OpcodeId::I64GeS
            | OpcodeId::I64LtU | OpcodeId::I64GtU | OpcodeId::I64LeU | OpcodeId::I64GeU
            | OpcodeId::I32Add | OpcodeId::I32Sub | OpcodeId::I32Mul | OpcodeId::I32DivS
            | OpcodeId::I32DivU | OpcodeId::I32RemS | OpcodeId::I32RemU | OpcodeId::I32And
            | OpcodeId::I32Or | OpcodeId::I32Xor | OpcodeId::I32Shl | OpcodeId::I32ShrS
            | OpcodeId::I32ShrU | OpcodeId::I32Rotl | OpcodeId::I32Rotr | OpcodeId::I64Add
            | OpcodeId::I64Sub | OpcodeId::I64Mul | OpcodeId::I64DivS | OpcodeId::I64DivU
            | OpcodeId::I64RemS | OpcodeId::I64RemU | OpcodeId::I64And | OpcodeId::I64Or
            | OpcodeId::I64Xor | OpcodeId::I64Shl | OpcodeId::I64ShrS | OpcodeId::I64ShrU
            | OpcodeId::I64Rotl | OpcodeId::I64Rotr => Handler::StackOnly {
            n_pop: 2,
            n_push: 1,
            is_err: false,
        },
        // memory load opcodes: one address popped, one value pushed
        OpcodeId::I32Load | OpcodeId::I32Load8S | OpcodeId::I32Load8U | OpcodeId::I32Load16S
            | OpcodeId::I32Load16U | OpcodeId::I64Load | OpcodeId::I64Load8S
            | OpcodeId::I64Load8U | OpcodeId::I64Load16S | OpcodeId::I64Load16U
            | OpcodeId::I64Load32S | OpcodeId::I64Load32U => Handler::StackOnly {
            n_pop: 1,
            n_push: 1,
            is_err: false,
        },
        // unary opcodes
        OpcodeId::I64ExtendUI32 | OpcodeId::I64ExtendSI32 | OpcodeId::I32WrapI64
            | OpcodeId::I32Ctz | OpcodeId::I64Ctz | OpcodeId::I32Clz | OpcodeId::I64Clz
            | OpcodeId::I32Popcnt | OpcodeId::I64Popcnt => Handler::StackOnly {
            n_pop: 1,
            n_push: 1,
            is_err: false,
        },
        // locals, globals, intra-module calls and structured branches are
        // resolved by the trace's precomputed structured jump targets; their
        // dedicated operation sequences are outside the modeled subset
        OpcodeId::SetGlobal | OpcodeId::GetGlobal | OpcodeId::SetLocal | OpcodeId::GetLocal
            | OpcodeId::TeeLocal | OpcodeId::Call | OpcodeId::CallIndirect | OpcodeId::Return
            | OpcodeId::Br | OpcodeId::BrIf | OpcodeId::BrTable => Handler::Dummy,
        // select-like opcodes
        OpcodeId::Select => Handler::StackOnly { n_pop: 3, n_push: 1, is_err: false },
        // memory store opcodes: value and address popped
        OpcodeId::I32Store | OpcodeId::I32Store8 | OpcodeId::I32Store16 | OpcodeId::I64Store
            | OpcodeId::I64Store8 | OpcodeId::I64Store16 | OpcodeId::I64Store32 =>
            Handler::StackOnly { n_pop: 2, n_push: 0, is_err: false },
        // test opcodes
        OpcodeId::I32Eqz | OpcodeId::I64Eqz => Handler::StackOnly {
            n_pop: 1,
            n_push: 1,
            is_err: false,
        },
        OpcodeId::Drop => Handler::StackOnly { n_pop: 1, n_push: 0, is_err: false },
        // EVM opcodes
        OpcodeId::STOP => Handler::Stop,
        OpcodeId::CALLVALUE => Handler::Callvalue,
        OpcodeId::CALLDATASIZE => Handler::Calldatasize,
        OpcodeId::CODESIZE => Handler::StackToMemory { n_pop: 0, el_bytes: 0 },
        OpcodeId::BLOCKHASH => Handler::StackToMemory { n_pop: 1, el_bytes: 32 },
        OpcodeId::COINBASE | OpcodeId::TIMESTAMP | OpcodeId::DIFFICULTY | OpcodeId::GASLIMIT
            | OpcodeId::CHAINID | OpcodeId::BASEFEE => Handler::StackToMemory {
            n_pop: 0,
            el_bytes: 0,
        },
        OpcodeId::PC | OpcodeId::MSIZE | OpcodeId::GAS => Handler::StackToMemory {
            n_pop: 0,
            el_bytes: 8,
        },
        OpcodeId::JUMPDEST => Handler::Dummy,
        OpcodeId::SELFDESTRUCT => Handler::SelfDestruct,
        // the remaining host opcodes (hashing, environment, copies, storage,
        // logs, calls and creates) carry operation sequences outside the
        // modeled subset and degrade to the placeholder
        _ => Handler::Dummy,
    }
}

/// The dispatch table: every opcode maps to a handler shape; opcodes whose
/// dedicated operation sequences are outside this library's modeled subset
/// route to the placeholder, the documented degradation policy.
pub fn fn_gen_associated_ops(opcode_id: &OpcodeId) -> (r: Handler)
    ensures
        r == spec_handler_of(*opcode_id),
{
    match opcode_id {
        OpcodeId::Unreachable => Handler::Stop,
        OpcodeId::End => Handler::Stop,
        OpcodeId::I32Const | OpcodeId::I64Const => Handler::StackOnly {
            n_pop: 0,
            n_push: 1,
            is_err: false,
        },
        // binary comparison, arithmetic and bit opcodes
        OpcodeId::I32Eq | OpcodeId::I32Ne | OpcodeId::I32LtS | OpcodeId::I32GtS
            | OpcodeId::I32LeS | OpcodeId::I32GeS | OpcodeId::I32LtU | OpcodeId::I32GtU
            | OpcodeId::I32LeU | OpcodeId::I32GeU | OpcodeId::I64Eq | OpcodeId::I64Ne
            | OpcodeId::I64LtS | OpcodeId::I64GtS | OpcodeId::I64LeS | OpcodeId::I64GeS
            | OpcodeId::I64LtU | OpcodeId::I64GtU | OpcodeId::I64LeU | OpcodeId::I64GeU
            | OpcodeId::I32Add | OpcodeId::I32Sub | OpcodeId::I32Mul | OpcodeId::I32DivS
            | OpcodeId::I32DivU | OpcodeId::I32RemS | OpcodeId::I32RemU | OpcodeId::I32And
            | OpcodeId::I32Or | OpcodeId::I32Xor | OpcodeId::I32Shl | OpcodeId::I32ShrS
            | OpcodeId::I32ShrU | OpcodeId::I32Rotl | OpcodeId::I32Rotr | OpcodeId::I64Add
            | OpcodeId::I64Sub | OpcodeId::I64Mul | OpcodeId::I64DivS | OpcodeId::I64DivU
            | OpcodeId::I64RemS | OpcodeId::I64RemU | OpcodeId::I64And | OpcodeId::I64Or
            | OpcodeId::I64Xor | OpcodeId::I64Shl | OpcodeId::I64ShrS | OpcodeId::I64ShrU
            | OpcodeId::I64Rotl | OpcodeId::I64Rotr => Handler::StackOnly {
            n_pop: 2,
            n_push: 1,
            is_err: false,
        },
        // memory load opcodes: one address popped, one value pushed
        OpcodeId::I32Load | OpcodeId::I32Load8S | OpcodeId::I32Load8U | OpcodeId::I32Load16S
            | OpcodeId::I32Load16U | OpcodeId::I64Load | OpcodeId::I64Load8S
            | OpcodeId::I64Load8U | OpcodeId::I64Load16S | OpcodeId::I64Load16U
            | OpcodeId::I64Load32S | OpcodeId::I64Load32U => Handler::StackOnly {
            n_pop: 1,
            n_push: 1,
            is_err: false,
        },
        // unary opcodes
        OpcodeId::I64ExtendUI32 | OpcodeId::I64ExtendSI32 | OpcodeId::I32WrapI64
            | OpcodeId::I32Ctz | OpcodeId::I64Ctz | OpcodeId::I32Clz | OpcodeId::I64Clz
            | OpcodeId::I32Popcnt | OpcodeId::I64Popcnt => Handler::StackOnly {
            n_pop: 1,
            n_push: 1,
            is_err: false,
        },
        // locals, globals, intra-module calls and structured branches are
        // resolved by the trace's precomputed structured jump targets; their
        // dedicated operation sequences are outside the modeled subset
        OpcodeId::SetGlobal | OpcodeId::GetGlobal | OpcodeId::SetLocal | OpcodeId::GetLocal
            | OpcodeId::TeeLocal | OpcodeId::Call | OpcodeId::CallIndirect | OpcodeId::Return
            | OpcodeId::Br | OpcodeId::BrIf | OpcodeId::BrTable => Handler::Dummy,
        // select-like opcodes
        OpcodeId::Select => Handler::StackOnly { n_pop: 3, n_push: 1, is_err: false },
        // memory store opcodes: value and address popped
        OpcodeId::I32Store | OpcodeId::I32Store8 | OpcodeId::I32Store16 | OpcodeId::I64Store
            | OpcodeId::I64Store8 | OpcodeId::I64Store16 | OpcodeId::I64Store32 =>
            Handler::StackOnly { n_pop: 2, n_push: 0, is_err: false },
        // test opcodes
        OpcodeId::I32Eqz | OpcodeId::I64Eqz => Handler::StackOnly {
            n_pop: 1,
            n_push: 1,
            is_err: false,
        },
        OpcodeId::Drop => Handler::StackOnly { n_pop: 1, n_push: 0, is_err: false },
        // EVM opcodes
        OpcodeId::STOP => Handler::Stop,
        OpcodeId::CALLVALUE => Handler::Callvalue,
        OpcodeId::CALLDATASIZE => Handler::Calldatasize,
        OpcodeId::CODESIZE => Handler::StackToMemory { n_pop: 0, el_bytes: 0 },
        OpcodeId::BLOCKHASH => Handler::StackToMemory { n_pop: 1, el_bytes: 32 },
        OpcodeId::COINBASE | OpcodeId::TIMESTAMP | OpcodeId::DIFFICULTY | OpcodeId::GASLIMIT
            | OpcodeId::CHAINID | OpcodeId::BASEFEE => Handler::StackToMemory {
            n_pop: 0,
            el_bytes: 0,
        },
        OpcodeId::PC | OpcodeId::MSIZE | OpcodeId::GAS => Handler::StackToMemory {
            n_pop: 0,
            el_bytes: 8,
        },
        OpcodeId::JUMPDEST => Handler::Dummy,
        OpcodeId::SELFDESTRUCT => Handler::SelfDestruct,
        // the remaining host opcodes (hashing, environment, copies, storage,
        // logs, calls and creates) carry operation sequences outside the
        // modeled subset and degrade to the placeholder
        _ => Handler::Dummy,
    }
}

/// The error dispatch table as a function: which handler a classified
/// error routes to; `None` falls back to generic return-and-rollback.
/// The error dispatch table as a function: which handler shape a
/// classified error routes to, disambiguated by the failing opcode where
/// two operand conventions share an error.  Every enumerated failure has
/// a routing; handlers whose dedicated operand reads are outside the
/// given sources degrade to the bare failure shape.
pub open spec fn spec_error_handler_of(op: OpcodeId, err: ExecError) -> Option<Handler> {
    match err {
        // the invalid-jump handler's operand reads are outside the given
        // sources; the failing call still terminates through the bare
        // error shape
        ExecError::InvalidJump => Some(Handler::StackOnly { n_pop: 0, n_push: 0, is_err: true }),
        ExecError::InvalidOpcode => Some(Handler::StackOnly {
            n_pop: 0,
            n_push: 0,
            is_err: false,
        }),
        // depth errors at a call still parse and enter the child frame;
        // the two operand conventions follow the with-value and
        // without-value call shapes
        ExecError::Depth(crate::error::DepthError::Call) => if op == OpcodeId::CALL || op
            == OpcodeId::CALLCODE {
            Some(Handler::CallFamilyError { n_pop: 7 })
        } else if op == OpcodeId::DELEGATECALL || op == OpcodeId::STATICCALL {
            Some(Handler::CallFamilyError { n_pop: 6 })
        } else {
            None
        },
        ExecError::Depth(crate::error::DepthError::Create) => Some(Handler::CallFamilyError {
            n_pop: 4,
        }),
        ExecError::Depth(crate::error::DepthError::Create2) => Some(Handler::CallFamilyError {
            n_pop: 4,
        }),
        ExecError::OutOfGas(OogError::Call) => Some(Handler::StackOnly {
            n_pop: 0,
            n_push: 0,
            is_err: true,
        }),
        ExecError::OutOfGas(OogError::Constant) => Some(Handler::StackOnly {
            n_pop: 0,
            n_push: 0,
            is_err: true,
        }),
        ExecError::OutOfGas(OogError::Create) => Some(Handler::StackOnly {
            n_pop: 4,
            n_push: 0,
            is_err: true,
        }),
        ExecError::OutOfGas(OogError::Log) => Some(Handler::StackOnly {
            n_pop: 0,
            n_push: 0,
            is_err: true,
        }),
        ExecError::OutOfGas(OogError::DynamicMemoryExpansion) => Some(Handler::StackOnly {
            n_pop: 0,
            n_push: 0,
            is_err: true,
        }),
        ExecError::OutOfGas(OogError::StaticMemoryExpansion) => Some(Handler::StackOnly {
            n_pop: 1,
            n_push: 0,
            is_err: true,
        }),
        ExecError::OutOfGas(OogError::Exp) => Some(Handler::StackOnly {
            n_pop: 2,
            n_push: 0,
            is_err: true,
        }),
        ExecError::OutOfGas(OogError::MemoryCopy) => Some(Handler::StackOnly {
            n_pop: 0,
            n_push: 0,
            is_err: true,
        }),
        ExecError::OutOfGas(OogError::Sha3) => Some(Handler::StackOnly {
            n_pop: 2,
            n_push: 0,
            is_err: true,
        }),
        ExecError::OutOfGas(OogError::SloadSstore) => Some(Handler::OogSloadSstore),
        ExecError::OutOfGas(OogError::AccountAccess) => Some(Handler::StackOnly {
            n_pop: 0,
            n_push: 0,
            is_err: true,
        }),
        ExecError::StackOverflow => Some(Handler::StackOnly {
            n_pop: 0,
            n_push: 0,
            is_err: true,
        }),
        ExecError::StackUnderflow => Some(Handler::StackOnly {
            n_pop: 0,
            n_push: 0,
            is_err: true,
        }),
        ExecError::CodeStoreOutOfGas => Some(Handler::StackOnly {
            n_pop: 0,
            n_push: 0,
            is_err: true,
        }),
        ExecError::MaxCodeSizeExceeded => Some(Handler::StackOnly {
            n_pop: 0,
            n_push: 0,
            is_err: true,
        }),
        // a balance shortfall at a call or create still enters the child
        ExecError::InsufficientBalance(crate::error::InsufficientBalanceError::Call) => Some(
            Handler::CallFamilyError { n_pop: 7 },
        ),
        ExecError::InsufficientBalance(crate::error::InsufficientBalanceError::Create) => Some(
            Handler::CallFamilyError { n_pop: 4 },
        ),
        ExecError::InsufficientBalance(crate::error::InsufficientBalanceError::Create2) => Some(
            Handler::CallFamilyError { n_pop: 4 },
        ),
        ExecError::PrecompileFailed => Some(Handler::StackOnly {
            n_pop: 0,
            n_push: 0,
            is_err: true,
        }),
        ExecError::WriteProtection => Some(Handler::StackOnly {
            n_pop: 0,
            n_push: 0,
            is_err: true,
        }),
        ExecError::ReturnDataOutOfBounds => Some(Handler::StackOnly {
            n_pop: 0,
            n_push: 0,
            is_err: true,
        }),
        ExecError::ContractAddressCollision(_) => Some(Handler::CallFamilyError { n_pop: 4 }),
        ExecError::NonceUintOverflow(_) => Some(Handler::CallFamilyError { n_pop: 4 }),
        ExecError::InvalidCreationCode => Some(Handler::StackOnly {
            n_pop: 0,
            n_push: 0,
            is_err: true,
        }),
    }
}

/// The error dispatch table: a classified error selects the handler that
/// emits the correct partial operation sequence for that failure, further
/// disambiguated by the failing opcode where several conventions share an
/// error.  `None` falls back to generic return-and-rollback handling.
pub fn fn_gen_error_state_associated_ops(geth_step: &TraceStep, error: &ExecError) -> (r: Option<
    Handler,
>)
    ensures
        r == spec_error_handler_of(geth_step.op, *error),
{
    match error {
        ExecError::InvalidJump => Some(Handler::StackOnly { n_pop: 0, n_push: 0, is_err: true }),
        ExecError::InvalidOpcode => Some(Handler::StackOnly {
            n_pop: 0,
            n_push: 0,
            is_err: false,
        }),
        // depth errors could occur at any of the four calling opcodes; the
        // original treats any other opcode here as unreachable
        ExecError::Depth(crate::error::DepthError::Call) => match geth_step.op {
            OpcodeId::CALL | OpcodeId::CALLCODE => Some(Handler::CallFamilyError { n_pop: 7 }),
            OpcodeId::DELEGATECALL | OpcodeId::STATICCALL => Some(Handler::CallFamilyError {
                n_pop: 6,
            }),
            _ => None,
        },
        ExecError::Depth(crate::error::DepthError::Create) => Some(Handler::CallFamilyError {
            n_pop: 4,
        }),
        ExecError::Depth(crate::error::DepthError::Create2) => Some(Handler::CallFamilyError {
            n_pop: 4,
        }),
        ExecError::OutOfGas(OogError::Call) => Some(Handler::StackOnly {
            n_pop: 0,
            n_push: 0,
            is_err: true,
        }),
        ExecError::OutOfGas(OogError::Constant) => Some(Handler::StackOnly {
            n_pop: 0,
            n_push: 0,
            is_err: true,
        }),
        ExecError::OutOfGas(OogError::Create) => Some(Handler::StackOnly {
            n_pop: 4,
            n_push: 0,
            is_err: true,
        }),
        ExecError::OutOfGas(OogError::Log) => Some(Handler::StackOnly {
            n_pop: 0,
            n_push: 0,
            is_err: true,
        }),
        ExecError::OutOfGas(OogError::DynamicMemoryExpansion) => Some(Handler::StackOnly {
            n_pop: 0,
            n_push: 0,
            is_err: true,
        }),
        ExecError::OutOfGas(OogError::StaticMemoryExpansion) => Some(Handler::StackOnly {
            n_pop: 1,
            n_push: 0,
            is_err: true,
        }),
        ExecError::OutOfGas(OogError::Exp) => Some(Handler::StackOnly {
            n_pop: 2,
            n_push: 0,
            is_err: true,
        }),
        ExecError::OutOfGas(OogError::MemoryCopy) => Some(Handler::StackOnly {
            n_pop: 0,
            n_push: 0,
            is_err: true,
        }),
        ExecError::OutOfGas(OogError::Sha3) => Some(Handler::StackOnly {
            n_pop: 2,
            n_push: 0,
            is_err: true,
        }),
        ExecError::OutOfGas(OogError::SloadSstore) => Some(Handler::OogSloadSstore),
        ExecError::OutOfGas(OogError::AccountAccess) => Some(Handler::StackOnly {
            n_pop: 0,
            n_push: 0,
            is_err: true,
        }),
        ExecError::StackOverflow => Some(Handler::StackOnly {
            n_pop: 0,
            n_push: 0,
            is_err: true,
        }),
        ExecError::StackUnderflow => Some(Handler::StackOnly {
            n_pop: 0,
            n_push: 0,
            is_err: true,
        }),
        ExecError::CodeStoreOutOfGas => Some(Handler::StackOnly {
            n_pop: 0,
            n_push: 0,
            is_err: true,
        }),
        ExecError::MaxCodeSizeExceeded => Some(Handler::StackOnly {
            n_pop: 0,
            n_push: 0,
            is_err: true,
        }),
        ExecError::InsufficientBalance(crate::error::InsufficientBalanceError::Call) => Some(
            Handler::CallFamilyError { n_pop: 7 },
        ),
        ExecError::InsufficientBalance(crate::error::InsufficientBalanceError::Create) => Some(
            Handler::CallFamilyError { n_pop: 4 },
        ),
        ExecError::InsufficientBalance(crate::error::InsufficientBalanceError::Create2) => Some(
            Handler::CallFamilyError { n_pop: 4 },
        ),
        ExecError::PrecompileFailed => Some(Handler::StackOnly {
            n_pop: 0,
            n_push: 0,
            is_err: true,
        }),
        ExecError::WriteProtection => Some(Handler::StackOnly {
            n_pop: 0,
            n_push: 0,
            is_err: true,
        }),
        ExecError::ReturnDataOutOfBounds => Some(Handler::StackOnly {
            n_pop: 0,
            n_push: 0,
            is_err: true,
        }),
        ExecError::ContractAddressCollision(_) => Some(Handler::CallFamilyError { n_pop: 4 }),
        ExecError::NonceUintOverflow(_) => Some(Handler::CallFamilyError { n_pop: 4 }),
        ExecError::InvalidCreationCode => Some(Handler::StackOnly {
            n_pop: 0,
            n_push: 0,
            is_err: true,
        }),
    }
}

/// Whether two byte buffers hold the same bytes.
pub fn bytes_eq(a: &Vec<u8>, b: &Vec<u8>) -> (r: bool)
    ensures
        r == (a@ =~= b@),
{
    if a.len() != b.len() {
        return false;
    }
    let n = a.len();
    for i in 0..n
        invariant
            n == a@.len(),
            n == b@.len(),
            forall|j: int| 0 <= j < i ==> a@[j] == b@[j],
    {
        if a[i] != b[i] {
            return false;
        }
    }
    true
}

/// What every handler needs of the orchestrator on entry: a live frame,
/// room in the log for the operations of one step, and a transaction id
/// that fits a word limb.
pub open spec fn handler_pre(state: CircuitInputState) -> bool {
    &&& state.wf()
    &&& state.call_stack@.len() > 0
    &&& state.ops().len() + state.call_stack@.last().reversible@.len() + 2200 < usize::MAX
    &&& state.tx_id <= 0xffff_ffff
    &&& state.next_call_id < usize::MAX
}

/// The returned witness row is bound to the trace step and to the
/// orchestrator position it was allocated at.
pub open spec fn step_matches(s: ExecStep, t: TraceStep, pre: CircuitInputState) -> bool {
    &&& s.exec_state == ExecState::Op(t.op)
    &&& s.pc == t.pc
    &&& s.gas_left == t.gas
    &&& s.gas_cost == t.gas_cost
    &&& s.stack_size == t.stack@.len()
    &&& s.call_index == pre.call_stack@.last().call_index
    &&& s.rwc_start == pre.ops().len() + 1
}

/// The step's bus-mapping instance lists consecutive container indices
/// starting at `start`: exactly the operations this step appended, in order.
pub open spec fn bmi_contiguous(s: ExecStep, start: int) -> bool {
    forall|j: int|
        0 <= j < s.bus_mapping_instance@.len() ==> #[trigger] s.bus_mapping_instance@[j] == start
            + j
}

/// Exactly when the stack-shaped handler succeeds: the first step's stack
/// holds the operands within the slot bound, and, when results are pushed,
/// a next step with room for them exists.
pub open spec fn stack_only_ok(steps: Seq<TraceStep>, n_pop: int, n_push: int, is_err: bool) -> bool {
    &&& steps[0].stack@.len() <= 1024
    &&& n_pop <= steps[0].stack@.len()
    &&& (!is_err && n_push > 0 ==> steps.len() >= 2 && steps[1].stack@.len() <= 1024 && n_push
        <= steps[1].stack@.len())
}

/// Exactly when the stack-to-memory handler succeeds: a lookahead step
/// exists, the stack holds the offset and operands, the offset fits the
/// address space, and the result window fits.
pub open spec fn stack_to_memory_ok(steps: Seq<TraceStep>, n_pop: int, el_bytes: int) -> bool {
    &&& steps.len() >= 2
    &&& n_pop + 1 <= steps[0].stack@.len() <= 1024
    &&& steps[0].stack@.last() <= 0xffff_ffff
    &&& {
        let dest = steps[0].stack@.last() as int;
        let m: int = if el_bytes == 0 {
            steps[1].result_memory@.len() as int
        } else {
            el_bytes
        };
        &&& (el_bytes > 0 ==> dest + el_bytes <= steps[1].global_memory@.len())
        &&& m <= 1024
        &&& m <= usize::MAX - dest
    }
}

/// Exactly when the call-value handler succeeds: a lookahead step with a
/// 32-byte result buffer, a nonempty stack within the bound, and a
/// destination that fits the address space.
pub open spec fn callvalue_ok(steps: Seq<TraceStep>) -> bool {
    &&& steps.len() >= 2
    &&& steps[1].result_memory@.len() >= 32
    &&& 1 <= steps[0].stack@.len() <= 1024
    &&& steps[0].stack@.last() <= 0xffff_ffff
    &&& steps[0].stack@.last() + 32 <= usize::MAX
}

/// Exactly when the calldata-size handler succeeds.
pub open spec fn calldatasize_ok(steps: Seq<TraceStep>) -> bool {
    &&& steps.len() >= 2
    &&& 1 <= steps[0].stack@.len() <= 1024
    &&& steps[0].stack@.last() <= 0xffff_ffff
    &&& steps[1].result_memory@.len() <= 1024
    &&& steps[1].result_memory@.len() <= usize::MAX - (steps[0].stack@.last() as int)
}

/// Exactly when the self-destruction handler succeeds: the receiver is on
/// the stack, both accounts exist, and a distinct receiver's credit fits
/// 256 bits.
pub open spec fn selfdestruct_ok(db: crate::state_db::StateDB, sender: crate::word::Address, steps: Seq<TraceStep>) -> bool {
    &&& steps[0].stack@.len() >= 1
    &&& {
        let receiver = crate::word::Address { hi: 0, mid: 0, lo: steps[0].stack@.last() };
        &&& crate::state_db::lookup(db.accounts@, receiver).is_some()
        &&& crate::state_db::lookup(db.accounts@, sender).is_some()
        &&& (receiver != sender ==> db.spec_account(receiver).balance.as_nat()
            + db.spec_account(sender).balance.as_nat()
            < 0x1_0000_0000_0000_0000_0000_0000_0000_0000_0000_0000_0000_0000_0000_0000_0000_0000)
    }
}

/// Exactly when the storage out-of-gas handler succeeds: two offsets on the
/// stack, each fitting the address space, and both 32-byte windows inside
/// the step's memory image.
pub open spec fn oog_sload_sstore_ok(steps: Seq<TraceStep>) -> bool {
    &&& 2 <= steps[0].stack@.len() <= 1024
    &&& steps[0].stack@.last() <= 0xffff_ffff
    &&& steps[0].stack@[steps[0].stack@.len() - 2] <= 0xffff_ffff
    &&& {
        let value_base = steps[0].stack@.last() as int;
        let key_base = steps[0].stack@[steps[0].stack@.len() - 2] as int;
        let mem_len = steps[0].global_memory@.len() as int;
        &&& mem_len >= 32
        &&& key_base <= mem_len - 32
        &&& value_base <= mem_len - 32
    }
}

/// The placeholder handler: one bare step, no operations.
pub fn dummy_gen_ops(state: &mut CircuitInputState, geth_steps: &Vec<TraceStep>) -> (r: Result<
    Vec<ExecStep>,
    Error,
>)
    requires
        handler_pre(*old(state)),
        geth_steps@.len() >= 1,
    ensures
        final(state).wf(),
        match r {
            Ok(steps) => steps@.len() == 1 && steps@[0].error.is_none() && step_matches(
                steps@[0],
                geth_steps@[0],
                *old(state),
            ) && steps@[0].bus_mapping_instance@.len() == 0 && final(state).ops() == old(
                state,
            ).ops() && final(state).sdb == old(state).sdb,
            Err(_) => false,
        },
{
    let step = state.new_step(&geth_steps[0])?;
    Ok(vec![step])
}

/// Opcode-level termination: reads the frame's success flag and returns to
/// the caller, rolling the frame's reversible operations back if it failed.
pub fn stop_gen_ops(state: &mut CircuitInputState, geth_steps: &Vec<TraceStep>) -> (r: Result<
    Vec<ExecStep>,
    Error,
>)
    requires
        handler_pre(*old(state)),
        geth_steps@.len() >= 1,
    ensures
        final(state).wf(),
        match r {
            Ok(steps) => {
                &&& steps@.len() == 1
                &&& steps@[0].error.is_none()
                &&& step_matches(steps@[0], geth_steps@[0], *old(state))
                &&& bmi_contiguous(steps@[0], old(state).ops().len() as int)
                &&& steps@[0].bus_mapping_instance@.len() == final(state).ops().len() - old(
                    state,
                ).ops().len()
                &&& final(state).call_stack@ == old(state).call_stack@.drop_last()
                &&& final(state).ops().len() >= old(state).ops().len() + 1
                &&& final(state).ops()[old(state).ops().len() as int] == (Operation {
                    rwc: (old(state).ops().len() + 1) as usize,
                    rw: RW::Read,
                    op: OpEnum::CallContext {
                        call_id: old(state).spec_call().call_id,
                        field: CallContextField::IsSuccess,
                        value: Word {
                            l0: if old(state).spec_call().is_success {
                                1
                            } else {
                                0
                            },
                            l1: 0,
                            l2: 0,
                            l3: 0,
                        },
                    },
                })
                &&& (old(state).spec_call().is_success ==> final(state).sdb == old(state).sdb
                    && final(state).ops().len() == old(state).ops().len() + 1)
            },
            Err(_) => false,
        },
{
    let geth_step = &geth_steps[0];
    let mut exec_step = state.new_step(geth_step)?;
    let call = state.call()?;
    let flag: u64 = if call.is_success {
        1
    } else {
        0
    };
    state.call_context_read(
        &mut exec_step,
        call.call_id,
        CallContextField::IsSuccess,
        Word::from_u64(flag),
    );
    state.handle_return(&mut exec_step, false)?;
    proof {
        assert forall|j: int| 0 <= j < exec_step.bus_mapping_instance@.len()
            implies #[trigger] exec_step.bus_mapping_instance@[j] == old(state).ops().len()
            + j by {
            if j >= 1 {
                assert(exec_step.bus_mapping_instance@[1 + (j - 1)] == old(state).ops().len() + 1
                    + (j - 1));
            }
        }
    }
    Ok(vec![exec_step])
}

/// The generic stack-shaped handler: `n_pop` reads of the stack top-down,
/// then `n_push` writes of the next step's stack (the written values are
/// trusted from the trace, the handler computes nothing itself); in the
/// error shape the step only pops and then leaves the failed call.
pub fn stack_only_gen_ops(
    state: &mut CircuitInputState,
    geth_steps: &Vec<TraceStep>,
    n_pop: usize,
    n_push: usize,
    is_err: bool,
) -> (r: Result<Vec<ExecStep>, Error>)
    requires
        handler_pre(*old(state)),
        geth_steps@.len() >= 1,
        n_pop <= 1024,
        n_push <= 1024,
    ensures
        final(state).wf(),
        r.is_ok() <==> stack_only_ok(geth_steps@, n_pop as int, n_push as int, is_err),
        match r {
            Ok(steps) => {
                &&& steps@.len() == 1
                &&& steps@[0].error.is_none()
                &&& step_matches(steps@[0], geth_steps@[0], *old(state))
                &&& bmi_contiguous(steps@[0], old(state).ops().len() as int)
                &&& steps@[0].bus_mapping_instance@.len() == final(state).ops().len() - old(
                    state,
                ).ops().len()
                &&& n_pop <= geth_steps@[0].stack@.len() <= 1024
                &&& final(state).ops().len() >= old(state).ops().len() + n_pop
                &&& (forall|i: int|
                    0 <= i < n_pop ==> #[trigger] final(state).ops()[old(state).ops().len() + i]
                        == (Operation {
                        rwc: (old(state).ops().len() + 1 + i) as usize,
                        rw: RW::Read,
                        op: OpEnum::Stack {
                            call_id: old(state).spec_call().call_id,
                            address: (1024 - geth_steps@[0].stack@.len() + i) as usize,
                            value: geth_steps@[0].stack@[geth_steps@[0].stack@.len() - 1 - i],
                        },
                    }))
                &&& (!is_err ==> final(state).ops().len() == old(state).ops().len() + n_pop
                    + n_push && final(state).sdb == old(state).sdb && (n_push > 0
                    ==> geth_steps@.len() >= 2 && n_push <= geth_steps@[1].stack@.len() <= 1024
                    && (forall|i: int|
                    0 <= i < n_push ==> #[trigger] final(state).ops()[old(state).ops().len() + n_pop
                        + i] == (Operation {
                        rwc: (old(state).ops().len() + n_pop + 1 + i) as usize,
                        rw: RW::Write,
                        op: OpEnum::Stack {
                            call_id: old(state).spec_call().call_id,
                            address: (1024 - geth_steps@[1].stack@.len() + (n_push - 1 - i)) as usize,
                            value: geth_steps@[1].stack@[geth_steps@[1].stack@.len() - 1 - (n_push
                                - 1 - i)],
                        },
                    }))))
                &&& (is_err ==> final(state).call_stack@ == old(state).call_stack@.drop_last())
            },
            Err(_) => true,
        },
{
    let geth_step = &geth_steps[0];
    let mut exec_step = state.new_step(geth_step)?;
    if geth_step.stack.len() > 1024 {
        return Err(Error::StackAddressOutOfBound);
    }
    if n_pop > geth_step.stack.len() {
        return Err(Error::StackAddressOutOfBound);
    }
    let ghost ops0 = old(state).ops();
    for i in 0..n_pop
        invariant
            state.wf(),
            state.call_stack@ == old(state).call_stack@,
            state.calls@ == old(state).calls@,
            state.sdb == old(state).sdb,
            handler_pre(*old(state)),
            geth_steps@.len() >= 1,
            i <= n_pop <= geth_steps@[0].stack@.len() <= 1024,
            geth_step == &geth_steps@[0],
            ops0 == old(state).ops(),
            exec_step.error.is_none(),
            step_matches(exec_step, geth_steps@[0], *old(state)),
            bmi_contiguous(exec_step, ops0.len() as int),
            state.ops().len() == ops0.len() + i,
            forall|j: int| 0 <= j < ops0.len() ==> #[trigger] state.ops()[j] == ops0[j],
            forall|j: int|
                0 <= j < i ==> #[trigger] state.ops()[ops0.len() + j] == (Operation {
                    rwc: (ops0.len() + 1 + j) as usize,
                    rw: RW::Read,
                    op: OpEnum::Stack {
                        call_id: old(state).spec_call().call_id,
                        address: (1024 - geth_steps@[0].stack@.len() + j) as usize,
                        value: geth_steps@[0].stack@[geth_steps@[0].stack@.len() - 1 - j],
                    },
                }),
            exec_step.bus_mapping_instance@.len() == i,
    {
        let value = match geth_step.nth_last(i) {
            Ok(v) => v,
            Err(e) => { return Err(e); },
        };
        let address = geth_step.nth_last_filled(i);
        match state.stack_read(&mut exec_step, address, value) {
            Ok(()) => (),
            Err(e) => { return Err(e); },
        }
    }
    if is_err {
        let ghost bmi_before: int = exec_step.bus_mapping_instance@.len() as int;
        state.handle_return(&mut exec_step, true)?;
        proof {
            assert forall|j: int| 0 <= j < exec_step.bus_mapping_instance@.len()
                implies #[trigger] exec_step.bus_mapping_instance@[j] == ops0.len() + j by {
                if j >= bmi_before {
                    assert(exec_step.bus_mapping_instance@[bmi_before + (j - bmi_before)]
                        == ops0.len() + n_pop + (j - bmi_before));
                }
            }
        }
        return Ok(vec![exec_step]);
    }
    if n_push > 0 {
        if geth_steps.len() < 2 {
            return Err(Error::IncompleteTrace);
        }
        let next_step = &geth_steps[1];
        if next_step.stack.len() > 1024 {
            return Err(Error::StackAddressOutOfBound);
        }
        if n_push > next_step.stack.len() {
            return Err(Error::StackAddressOutOfBound);
        }
        let ghost ops1 = state.ops();
        for i in 0..n_push
            invariant
                state.wf(),
                state.call_stack@ == old(state).call_stack@,
                state.calls@ == old(state).calls@,
                state.sdb == old(state).sdb,
                handler_pre(*old(state)),
                geth_steps@.len() >= 2,
                n_pop <= geth_steps@[0].stack@.len() <= 1024,
                i <= n_push <= geth_steps@[1].stack@.len() <= 1024,
                next_step == &geth_steps@[1],
                ops1.len() == old(state).ops().len() + n_pop,
                exec_step.error.is_none(),
                step_matches(exec_step, geth_steps@[0], *old(state)),
                bmi_contiguous(exec_step, old(state).ops().len() as int),
                exec_step.bus_mapping_instance@.len() == n_pop + i,
                forall|j: int|
                    0 <= j < old(state).ops().len() ==> #[trigger] ops1[j] == old(state).ops()[j],
                forall|j: int|
                    0 <= j < n_pop ==> #[trigger] ops1[old(state).ops().len() + j] == (Operation {
                        rwc: (old(state).ops().len() + 1 + j) as usize,
                        rw: RW::Read,
                        op: OpEnum::Stack {
                            call_id: old(state).spec_call().call_id,
                            address: (1024 - geth_steps@[0].stack@.len() + j) as usize,
                            value: geth_steps@[0].stack@[geth_steps@[0].stack@.len() - 1 - j],
                        },
                    }),
                state.ops().len() == ops1.len() + i,
                forall|j: int| 0 <= j < ops1.len() ==> #[trigger] state.ops()[j] == ops1[j],
                forall|j: int|
                    0 <= j < i ==> #[trigger] state.ops()[ops1.len() + j] == (Operation {
                        rwc: (ops1.len() + 1 + j) as usize,
                        rw: RW::Write,
                        op: OpEnum::Stack {
                            call_id: old(state).spec_call().call_id,
                            address: (1024 - geth_steps@[1].stack@.len() + (n_push - 1 - j)) as usize,
                            value: geth_steps@[1].stack@[geth_steps@[1].stack@.len() - 1 - (n_push
                                - 1 - j)],
                        },
                    }),
        {
            let pos = n_push - 1 - i;
            let value = match next_step.nth_last(pos) {
                Ok(v) => v,
                Err(e) => { return Err(e); },
            };
            let address = next_step.nth_last_filled(pos);
            match state.stack_write(&mut exec_step, address, value) {
                Ok(()) => (),
                Err(e) => { return Err(e); },
            }
        }
    }
    Ok(vec![exec_step])
}

/// A plain copy of a byte buffer.
pub fn copy_bytes(v: &Vec<u8>) -> (r: Vec<u8>)
    ensures
        r@ == v@,
{
    let mut out: Vec<u8> = Vec::new();
    let n = v.len();
    for i in 0..n
        invariant
            n == v@.len(),
            out@.len() == i,
            forall|j: int| 0 <= j < i ==> out@[j] == v@[j],
    {
        out.push(v[i]);
    }
    proof {
        assert(out@ =~= v@);
    }
    out
}

/// The stack-to-memory handler: pops a destination offset plus `n_pop`
/// operands, then copies the opcode's result bytes into memory at that
/// offset.  With `el_bytes` 0 the result is the step's own result buffer;
/// with 32 or 8 it is that many bytes of the next step's memory at the
/// destination.
pub fn stack_to_memory_gen_ops(
    state: &mut CircuitInputState,
    geth_steps: &Vec<TraceStep>,
    n_pop: usize,
    el_bytes: usize,
) -> (r: Result<Vec<ExecStep>, Error>)
    requires
        handler_pre(*old(state)),
        geth_steps@.len() >= 1,
        n_pop <= 16,
        el_bytes == 0 || el_bytes == 8 || el_bytes == 32,
    ensures
        final(state).wf(),
        r.is_ok() <==> stack_to_memory_ok(geth_steps@, n_pop as int, el_bytes as int),
        match r {
            Ok(steps) => {
                &&& steps@.len() == 1
                &&& steps@[0].error.is_none()
                &&& step_matches(steps@[0], geth_steps@[0], *old(state))
                &&& bmi_contiguous(steps@[0], old(state).ops().len() as int)
                &&& steps@[0].bus_mapping_instance@.len() == final(state).ops().len() - old(
                    state,
                ).ops().len()
                &&& final(state).sdb == old(state).sdb
                &&& geth_steps@.len() >= 2
                &&& n_pop + 1 <= geth_steps@[0].stack@.len() <= 1024
                &&& final(state).ops()[old(state).ops().len() as int] == (Operation {
                    rwc: (old(state).ops().len() + 1) as usize,
                    rw: RW::Read,
                    op: OpEnum::Stack {
                        call_id: old(state).spec_call().call_id,
                        address: (1024 - geth_steps@[0].stack@.len()) as usize,
                        value: geth_steps@[0].stack@[geth_steps@[0].stack@.len() - 1],
                    },
                })
                &&& (forall|i: int|
                    0 <= i < n_pop ==> #[trigger] final(state).ops()[old(state).ops().len() + 1
                        + i] == (Operation {
                        rwc: (old(state).ops().len() + 2 + i) as usize,
                        rw: RW::Read,
                        op: OpEnum::Stack {
                            call_id: old(state).spec_call().call_id,
                            address: (1024 - geth_steps@[0].stack@.len() + i + 1) as usize,
                            value: geth_steps@[0].stack@[geth_steps@[0].stack@.len() - 2 - i],
                        },
                    }))
                &&& {
                    let dest = geth_steps@[0].stack@[geth_steps@[0].stack@.len() - 1] as int;
                    let m: int = if el_bytes == 0 {
                        geth_steps@[1].result_memory@.len() as int
                    } else {
                        el_bytes as int
                    };
                    &&& final(state).ops().len() == old(state).ops().len() + 1 + n_pop + m
                    &&& (forall|i: int|
                        0 <= i < m ==> #[trigger] final(state).ops()[old(state).ops().len() + 1
                            + n_pop + i] == (Operation {
                            rwc: (old(state).ops().len() + 2 + n_pop + i) as usize,
                            rw: RW::Write,
                            op: OpEnum::Memory {
                                call_id: old(state).spec_call().call_id,
                                address: (dest + i) as usize,
                                byte: if el_bytes == 0 {
                                    geth_steps@[1].result_memory@[i]
                                } else {
                                    geth_steps@[1].global_memory@[dest + i]
                                },
                            },
                        }))
                }
            },
            Err(_) => true,
        },
{
    if geth_steps.len() < 2 {
        return Err(Error::IncompleteTrace);
    }
    let geth_step = &geth_steps[0];
    let next_step = &geth_steps[1];
    let mut exec_step = state.new_step(geth_step)?;
    if geth_step.stack.len() > 1024 {
        return Err(Error::StackAddressOutOfBound);
    }
    if n_pop + 1 > geth_step.stack.len() {
        return Err(Error::StackAddressOutOfBound);
    }
    // destination offset read off the stack top
    let dest_offset = match geth_step.nth_last(0) {
        Ok(v) => v,
        Err(e) => { return Err(e); },
    };
    let address0 = geth_step.nth_last_filled(0);
    match state.stack_read(&mut exec_step, address0, dest_offset) {
        Ok(()) => (),
        Err(e) => { return Err(e); },
    }
    if dest_offset > 0xffff_ffffu64 {
        return Err(Error::MemoryAddressOverflow);
    }
    let dest = dest_offset as usize;
    let ghost ops1 = state.ops();
    // remaining operands
    for i in 0..n_pop
        invariant
            state.wf(),
            state.call_stack@ == old(state).call_stack@,
            state.calls@ == old(state).calls@,
            state.sdb == old(state).sdb,
            handler_pre(*old(state)),
            geth_steps@.len() >= 2,
            n_pop + 1 <= geth_steps@[0].stack@.len() <= 1024,
            geth_step == &geth_steps@[0],
            ops1.len() == old(state).ops().len() + 1,
            exec_step.error.is_none(),
            step_matches(exec_step, geth_steps@[0], *old(state)),
            bmi_contiguous(exec_step, old(state).ops().len() as int),
            exec_step.bus_mapping_instance@.len() == 1 + i,
            forall|j: int| 0 <= j < ops1.len() ==> #[trigger] state.ops()[j] == ops1[j],
            ops1[old(state).ops().len() as int] == state.ops()[old(state).ops().len() as int],
            state.ops().len() == ops1.len() + i,
            forall|j: int|
                0 <= j < i ==> #[trigger] state.ops()[ops1.len() + j] == (Operation {
                    rwc: (ops1.len() + 1 + j) as usize,
                    rw: RW::Read,
                    op: OpEnum::Stack {
                        call_id: old(state).spec_call().call_id,
                        address: (1024 - geth_steps@[0].stack@.len() + j + 1) as usize,
                        value: geth_steps@[0].stack@[geth_steps@[0].stack@.len() - 2 - j],
                    },
                }),
        decreases n_pop - i,
    {
        let value = match geth_step.nth_last(i + 1) {
            Ok(v) => v,
            Err(e) => { return Err(e); },
        };
        let address = geth_step.nth_last_filled(i + 1);
        match state.stack_read(&mut exec_step, address, value) {
            Ok(()) => (),
            Err(e) => { return Err(e); },
        }
    }
    // the result bytes to copy
    let m: usize = if el_bytes == 0 {
        next_step.result_memory.len()
    } else {
        el_bytes
    };
    if el_bytes > 0 {
        if next_step.global_memory.len() < dest || next_step.global_memory.len() - dest < el_bytes
        {
            return Err(Error::MemoryAddressOverflow);
        }
    }
    if m > 1024 || m > usize::MAX - dest {
        return Err(Error::MemoryAddressOverflow);
    }
    let ghost ops2 = state.ops();
    for i in 0..m
        invariant
            state.wf(),
            state.call_stack@ == old(state).call_stack@,
            state.calls@ == old(state).calls@,
            state.sdb == old(state).sdb,
            handler_pre(*old(state)),
            geth_steps@.len() >= 2,
            next_step == &geth_steps@[1],
            dest == geth_steps@[0].stack@[geth_steps@[0].stack@.len() - 1],
            m <= usize::MAX - dest,
            el_bytes == 0 ==> m == geth_steps@[1].result_memory@.len(),
            el_bytes > 0 ==> m == el_bytes && dest + m <= geth_steps@[1].global_memory@.len(),
            m <= 1024,
            n_pop <= 16,
            exec_step.error.is_none(),
            step_matches(exec_step, geth_steps@[0], *old(state)),
            bmi_contiguous(exec_step, old(state).ops().len() as int),
            exec_step.bus_mapping_instance@.len() == 1 + n_pop + i,
            ops2.len() == old(state).ops().len() + 1 + n_pop,
            forall|j: int| 0 <= j < ops2.len() ==> #[trigger] state.ops()[j] == ops2[j],
            state.ops().len() == ops2.len() + i,
            forall|j: int|
                0 <= j < i ==> #[trigger] state.ops()[ops2.len() + j] == (Operation {
                    rwc: (ops2.len() + 1 + j) as usize,
                    rw: RW::Write,
                    op: OpEnum::Memory {
                        call_id: old(state).spec_call().call_id,
                        address: (dest + j) as usize,
                        byte: if el_bytes == 0 {
                            geth_steps@[1].result_memory@[j]
                        } else {
                            geth_steps@[1].global_memory@[dest + j]
                        },
                    },
                }),
        decreases m - i,
    {
        let b: u8 = if el_bytes == 0 {
            next_step.result_memory[i]
        } else {
            next_step.global_memory[dest + i]
        };
        match state.memory_write(&mut exec_step, dest + i, b) {
            Ok(()) => (),
            Err(e) => { return Err(e); },
        }
    }
    let mem = copy_bytes(&next_step.global_memory);
    state.set_call_memory(mem);
    Ok(vec![exec_step])
}

/// The call-value handler: one call-context read of the call's value
/// (observed in the next step's result buffer), one stack read of the
/// destination offset, then the 32 big-endian value bytes written to
/// memory at that offset.
pub fn callvalue_gen_ops(state: &mut CircuitInputState, geth_steps: &Vec<TraceStep>) -> (r: Result<
    Vec<ExecStep>,
    Error,
>)
    requires
        handler_pre(*old(state)),
        geth_steps@.len() >= 1,
    ensures
        final(state).wf(),
        r.is_ok() <==> callvalue_ok(geth_steps@),
        match r {
            Ok(steps) => {
                &&& steps@.len() == 1
                &&& steps@[0].error.is_none()
                &&& step_matches(steps@[0], geth_steps@[0], *old(state))
                &&& bmi_contiguous(steps@[0], old(state).ops().len() as int)
                &&& steps@[0].bus_mapping_instance@.len() == 34
                &&& final(state).sdb == old(state).sdb
                &&& geth_steps@.len() >= 2
                &&& geth_steps@[1].result_memory@.len() >= 32
                &&& 1 <= geth_steps@[0].stack@.len() <= 1024
                &&& final(state).ops().len() == old(state).ops().len() + 34
                &&& final(state).ops()[old(state).ops().len() as int] == (Operation {
                    rwc: (old(state).ops().len() + 1) as usize,
                    rw: RW::Read,
                    op: OpEnum::CallContext {
                        call_id: old(state).spec_call().call_id,
                        field: CallContextField::Value,
                        value: crate::word::word_from_be_spec(geth_steps@[1].result_memory@, 0),
                    },
                })
                &&& final(state).ops()[old(state).ops().len() + 1int] == (Operation {
                    rwc: (old(state).ops().len() + 2) as usize,
                    rw: RW::Read,
                    op: OpEnum::Stack {
                        call_id: old(state).spec_call().call_id,
                        address: (1024 - geth_steps@[0].stack@.len()) as usize,
                        value: geth_steps@[0].stack@[geth_steps@[0].stack@.len() - 1],
                    },
                })
                &&& {
                    let dest = geth_steps@[0].stack@[geth_steps@[0].stack@.len() - 1] as int;
                    forall|i: int|
                        0 <= i < 32 ==> #[trigger] final(state).ops()[old(state).ops().len() + 2
                            + i] == (Operation {
                            rwc: (old(state).ops().len() + 3 + i) as usize,
                            rw: RW::Write,
                            op: OpEnum::Memory {
                                call_id: old(state).spec_call().call_id,
                                address: (dest + i) as usize,
                                byte: geth_steps@[1].result_memory@[i],
                            },
                        })
                }
            },
            Err(_) => true,
        },
{
    if geth_steps.len() < 2 {
        return Err(Error::IncompleteTrace);
    }
    let geth_step = &geth_steps[0];
    let next_step = &geth_steps[1];
    let mut exec_step = state.new_step(geth_step)?;
    if next_step.result_memory.len() < 32 {
        return Err(Error::IncompleteTrace);
    }
    if geth_step.stack.len() == 0 || geth_step.stack.len() > 1024 {
        return Err(Error::StackAddressOutOfBound);
    }
    let call = state.call()?;
    // the call's value, observed in the next step's result buffer
    let value = Word::from_be_bytes(&next_step.result_memory, 0);
    state.call_context_read(&mut exec_step, call.call_id, CallContextField::Value, value);
    // destination offset as the last stack element
    let dest_offset = match geth_step.nth_last(0) {
        Ok(v) => v,
        Err(e) => { return Err(e); },
    };
    let address0 = geth_step.nth_last_filled(0);
    match state.stack_read(&mut exec_step, address0, dest_offset) {
        Ok(()) => (),
        Err(e) => { return Err(e); },
    }
    if dest_offset > 0xffff_ffffu64 {
        return Err(Error::MemoryAddressOverflow);
    }
    let dest = dest_offset as usize;
    if dest > usize::MAX - 32 {
        return Err(Error::MemoryAddressOverflow);
    }
    let ghost ops2 = state.ops();
    for i in 0..32usize
        invariant
            state.wf(),
            state.call_stack@ == old(state).call_stack@,
            state.calls@ == old(state).calls@,
            state.sdb == old(state).sdb,
            handler_pre(*old(state)),
            geth_steps@.len() >= 2,
            next_step == &geth_steps@[1],
            geth_steps@[1].result_memory@.len() >= 32,
            dest == geth_steps@[0].stack@[geth_steps@[0].stack@.len() - 1],
            dest <= 0xffff_ffff,
            dest + 32 <= usize::MAX,
            ops2.len() == old(state).ops().len() + 2,
            exec_step.error.is_none(),
            step_matches(exec_step, geth_steps@[0], *old(state)),
            bmi_contiguous(exec_step, old(state).ops().len() as int),
            exec_step.bus_mapping_instance@.len() == 2 + i,
            forall|j: int| 0 <= j < ops2.len() ==> #[trigger] state.ops()[j] == ops2[j],
            state.ops().len() == ops2.len() + i,
            forall|j: int|
                0 <= j < i ==> #[trigger] state.ops()[ops2.len() + j] == (Operation {
                    rwc: (ops2.len() + 1 + j) as usize,
                    rw: RW::Write,
                    op: OpEnum::Memory {
                        call_id: old(state).spec_call().call_id,
                        address: (dest + j) as usize,
                        byte: geth_steps@[1].result_memory@[j],
                    },
                }),
    {
        let b = next_step.result_memory[i];
        match state.memory_write(&mut exec_step, dest + i, b) {
            Ok(()) => (),
            Err(e) => { return Err(e); },
        }
    }
    let mem = copy_bytes(&next_step.global_memory);
    state.set_call_memory(mem);
    Ok(vec![exec_step])
}

/// The simplified self-destruction model: the receiver is warmed, the
/// sender's balance, nonce and code hash are zeroed as three reversible
/// account writes, the receiver is credited unless it is the sender, and
/// the sender is destructed only when the call is persistent.
pub fn dummy_gen_selfdestruct_ops(state: &mut CircuitInputState, geth_steps: &Vec<TraceStep>) -> (r:
    Result<Vec<ExecStep>, Error>)
    requires
        handler_pre(*old(state)),
        geth_steps@.len() >= 1,
    ensures
        final(state).wf(),
        r.is_ok() <==> selfdestruct_ok(
            old(state).sdb,
            old(state).spec_call().address,
            geth_steps@,
        ),
        // a missing account is the named fatal error
        geth_steps@[0].stack@.len() < 1 ==> r == Err::<Vec<ExecStep>, Error>(
            Error::StackAddressOutOfBound,
        ),
        ({
            let receiver = crate::word::Address {
                hi: 0,
                mid: 0,
                lo: geth_steps@[0].stack@[geth_steps@[0].stack@.len() - 1],
            };
            let sender = old(state).spec_call().address;
            &&& (geth_steps@[0].stack@.len() >= 1 && !crate::state_db::lookup(
                old(state).sdb.accounts@,
                receiver,
            ).is_some() ==> r == Err::<Vec<ExecStep>, Error>(Error::AccountNotFound(receiver)))
            &&& (geth_steps@[0].stack@.len() >= 1 && crate::state_db::lookup(
                old(state).sdb.accounts@,
                receiver,
            ).is_some() && !crate::state_db::lookup(old(state).sdb.accounts@, sender).is_some()
                ==> r == Err::<Vec<ExecStep>, Error>(Error::AccountNotFound(sender)))
        }),
        match r {
            Ok(steps) => {
                let sender = old(state).spec_call().address;
                let receiver = crate::word::Address {
                    hi: 0,
                    mid: 0,
                    lo: geth_steps@[0].stack@[geth_steps@[0].stack@.len() - 1],
                };
                let acct = old(state).sdb.spec_account(sender);
                &&& steps@.len() == 1
                &&& steps@[0].error.is_none()
                &&& step_matches(steps@[0], geth_steps@[0], *old(state))
                &&& geth_steps@[0].stack@.len() >= 1
                &&& final(state).call_stack@ == old(state).call_stack@.drop_last()
                &&& (old(state).spec_call().is_success ==> {
                    &&& bmi_contiguous(steps@[0], old(state).ops().len() as int)
                    &&& steps@[0].bus_mapping_instance@.len() == final(state).ops().len() - old(
                        state,
                    ).ops().len()
                    &&& (receiver != sender ==> final(state).ops()[old(state).ops().len()
                        + 4int].rwc == old(state).ops().len() + 5 && final(state).ops()[old(
                        state,
                    ).ops().len() + 4int].rw == RW::Write && (final(state).ops()[old(
                        state,
                    ).ops().len() + 4int].op matches OpEnum::Account {
                        address,
                        field: AccountField::Balance,
                        value,
                        value_prev,
                    } && address == receiver && value_prev == old(state).sdb.spec_account(
                        receiver,
                    ).balance && value.as_nat() == old(state).sdb.spec_account(receiver).balance.as_nat()
                        + acct.balance.as_nat()))
                    &&& final(state).sdb.spec_warm_account(receiver)
                    &&& final(state).sdb.db_read(DbKey::AccountBalance { address: sender }) == 0
                    &&& final(state).sdb.db_read(DbKey::AccountNonce { address: sender }) == 0
                    &&& final(state).sdb.db_read(DbKey::AccountCodeHash { address: sender }) == 0
                    &&& (old(state).spec_call().is_persistent ==> forall|k: Word|
                        #[trigger] final(state).sdb.spec_storage(sender, k) == 0)
                    &&& (!old(state).spec_call().is_persistent ==> forall|k: Word|
                        #[trigger] final(state).sdb.spec_storage(sender, k) == old(
                            state,
                        ).sdb.spec_storage(sender, k))
                    // every key outside the touched set is unchanged
                    &&& (forall|k: DbKey|
                        !crate::state_db::db_key_of_account(k, sender) && k != (
                        DbKey::WarmAccount { address: receiver }) && k != (DbKey::AccountBalance {
                            address: receiver,
                        }) ==> #[trigger] final(state).sdb.db_read(k) == old(state).sdb.db_read(
                            k,
                        ))
                    &&& final(state).ops()[old(state).ops().len() as int] == (Operation {
                        rwc: (old(state).ops().len() + 1) as usize,
                        rw: RW::Write,
                        op: OpEnum::TxAccessListAccount {
                            tx_id: old(state).tx_id,
                            address: receiver,
                            is_warm: true,
                            is_warm_prev: old(state).sdb.spec_warm_account(receiver),
                        },
                    })
                    &&& final(state).ops()[old(state).ops().len() + 1int] == (Operation {
                        rwc: (old(state).ops().len() + 2) as usize,
                        rw: RW::Write,
                        op: OpEnum::Account {
                            address: sender,
                            field: AccountField::Balance,
                            value: Word { l0: 0, l1: 0, l2: 0, l3: 0 },
                            value_prev: acct.balance,
                        },
                    })
                    &&& final(state).ops()[old(state).ops().len() + 2int] == (Operation {
                        rwc: (old(state).ops().len() + 3) as usize,
                        rw: RW::Write,
                        op: OpEnum::Account {
                            address: sender,
                            field: AccountField::Nonce,
                            value: Word { l0: 0, l1: 0, l2: 0, l3: 0 },
                            value_prev: Word { l0: acct.nonce, l1: 0, l2: 0, l3: 0 },
                        },
                    })
                    &&& final(state).ops()[old(state).ops().len() + 3int] == (Operation {
                        rwc: (old(state).ops().len() + 4) as usize,
                        rw: RW::Write,
                        op: OpEnum::Account {
                            address: sender,
                            field: AccountField::CodeHash,
                            value: Word { l0: 0, l1: 0, l2: 0, l3: 0 },
                            value_prev: acct.code_hash,
                        },
                    })
                    &&& (receiver == sender ==> final(state).ops().len() == old(state).ops().len()
                        + 4)
                    &&& (receiver != sender ==> final(state).ops().len() == old(state).ops().len()
                        + 5)
                })
            },
            Err(_) => true,
        },
{
    let geth_step = &geth_steps[0];
    let mut exec_step = state.new_step(geth_step)?;
    let call = state.call()?;
    let sender = call.address;
    let receiver_word = match geth_step.nth_last(0) {
        Ok(v) => v,
        Err(e) => { return Err(e); },
    };
    let receiver = crate::word::Address::from_stack_word(receiver_word);

    // the simplified model still requires both accounts to really exist
    if !state.sdb.account_exists(&receiver) {
        return Err(Error::AccountNotFound(receiver));
    }
    if !state.sdb.account_exists(&sender) {
        return Err(Error::AccountNotFound(sender));
    }

    let is_warm = state.sdb.check_account_in_access_list(&receiver);
    match state.push_op_reversible(
        &mut exec_step,
        OpEnum::TxAccessListAccount {
            tx_id: state.tx_id,
            address: receiver,
            is_warm: true,
            is_warm_prev: is_warm,
        },
    ) {
        Ok(()) => (),
        Err(e) => { return Err(e); },
    }

    let ghost db1 = state.sdb;
    let sender_account = state.sdb.get_account(&sender);
    let value = sender_account.balance;
    proof {
        assert(crate::state::spec_account_field(db1, sender, AccountField::Balance)
            == crate::state::spec_account_field(old(state).sdb, sender, AccountField::Balance));
    }
    match state.push_op_reversible(
        &mut exec_step,
        OpEnum::Account {
            address: sender,
            field: AccountField::Balance,
            value: Word::zero(),
            value_prev: value,
        },
    ) {
        Ok(()) => (),
        Err(e) => { return Err(e); },
    }
    let ghost db2 = state.sdb;
    match state.push_op_reversible(
        &mut exec_step,
        OpEnum::Account {
            address: sender,
            field: AccountField::Nonce,
            value: Word::zero(),
            value_prev: Word::from_u64(sender_account.nonce),
        },
    ) {
        Ok(()) => (),
        Err(e) => { return Err(e); },
    }
    let ghost db3 = state.sdb;
    match state.push_op_reversible(
        &mut exec_step,
        OpEnum::Account {
            address: sender,
            field: AccountField::CodeHash,
            value: Word::zero(),
            value_prev: sender_account.code_hash,
        },
    ) {
        Ok(()) => (),
        Err(e) => { return Err(e); },
    }
    let ghost db4 = state.sdb;
    if receiver != sender {
        let receiver_balance_prev = state.sdb.get_account(&receiver).balance;
        proof {
            assert(crate::state::spec_account_field(db1, receiver, AccountField::Balance)
                == crate::state::spec_account_field(old(state).sdb, receiver,
                AccountField::Balance));
            assert(crate::state::spec_account_field(db2, receiver, AccountField::Balance)
                == crate::state::spec_account_field(db1, receiver, AccountField::Balance));
            assert(crate::state::spec_account_field(db3, receiver, AccountField::Balance)
                == crate::state::spec_account_field(db2, receiver, AccountField::Balance));
            assert(crate::state::spec_account_field(db4, receiver, AccountField::Balance)
                == crate::state::spec_account_field(db3, receiver, AccountField::Balance));
            assert(receiver_balance_prev == old(state).sdb.spec_account(receiver).balance);
            assert(value == old(state).sdb.spec_account(sender).balance);
        }
        let receiver_balance = match crate::word::word_add(&receiver_balance_prev, &value) {
            Some(w) => w,
            None => { return Err(Error::ArithmeticOverflow); },
        };
        match state.push_op_reversible(
            &mut exec_step,
            OpEnum::Account {
                address: receiver,
                field: AccountField::Balance,
                value: receiver_balance,
                value_prev: receiver_balance_prev,
            },
        ) {
            Ok(()) => (),
            Err(e) => { return Err(e); },
        }
    }

    let ghost db5 = state.sdb;
    let ghost bmi5 = exec_step.bus_mapping_instance@;
    let ghost ops_before_return = state.ops();
    if call.is_persistent {
        state.sdb.destruct_account(sender);
    }
    let ghost db6 = state.sdb;
    proof {
        let kb = DbKey::AccountBalance { address: sender };
        let kn = DbKey::AccountNonce { address: sender };
        let kc = DbKey::AccountCodeHash { address: sender };
        let kw = DbKey::WarmAccount { address: receiver };
        assert(db2.db_read(kb) == 0);
        assert(db3.db_read(kb) == db2.db_read(kb));
        assert(db4.db_read(kb) == db3.db_read(kb));
        assert(db5.db_read(kb) == db4.db_read(kb));
        assert(db3.db_read(kn) == 0);
        assert(db4.db_read(kn) == db3.db_read(kn));
        assert(db5.db_read(kn) == db4.db_read(kn));
        assert(db4.db_read(kc) == 0);
        assert(db5.db_read(kc) == db4.db_read(kc));
        assert(db1.db_read(kw) == 1);
        assert(db2.db_read(kw) == db1.db_read(kw));
        assert(db3.db_read(kw) == db2.db_read(kw));
        assert(db4.db_read(kw) == db3.db_read(kw));
        assert(db5.db_read(kw) == db4.db_read(kw));
        assert(db6.db_read(kb) == 0);
        assert(db6.db_read(kn) == 0);
        assert(db6.db_read(kc) == 0);
        assert(db6.spec_warm_account(receiver));
    }
    state.handle_return(&mut exec_step, false)?;
    proof {
        if call.is_success {
            assert(state.sdb == db6);
            assert forall|j: int| 0 <= j < exec_step.bus_mapping_instance@.len()
                implies #[trigger] exec_step.bus_mapping_instance@[j]
                == old(state).ops().len() + j by {
                assert(exec_step.bus_mapping_instance@[j] == bmi5[j]);
            }
            assert forall|k: DbKey|
                !crate::state_db::db_key_of_account(k, sender) && k != (DbKey::WarmAccount {
                    address: receiver,
                }) && k != (DbKey::AccountBalance { address: receiver })
                    implies #[trigger] state.sdb.db_read(k) == old(state).sdb.db_read(k) by {
                assert(db1.db_read(k) == old(state).sdb.db_read(k));
                assert(db2.db_read(k) == db1.db_read(k));
                assert(db3.db_read(k) == db2.db_read(k));
                assert(db4.db_read(k) == db3.db_read(k));
                assert(db5.db_read(k) == db4.db_read(k));
                assert(db6.db_read(k) == db5.db_read(k));
            }
            if !call.is_persistent {
                assert forall|k: Word| true implies #[trigger] state.sdb.spec_storage(sender, k)
                    == old(state).sdb.spec_storage(sender, k) by {
                    let sk = DbKey::StorageSlot { address: sender, key: k };
                    assert(db1.db_read(sk) == old(state).sdb.db_read(sk));
                    assert(db2.db_read(sk) == db1.db_read(sk));
                    assert(db3.db_read(sk) == db2.db_read(sk));
                    assert(db4.db_read(sk) == db3.db_read(sk));
                    assert(db5.db_read(sk) == db4.db_read(sk));
                    assert(db6.db_read(sk) == db5.db_read(sk));
                }
            }
        }
    }
    Ok(vec![exec_step])
}

/// The out-of-gas path of the storage opcodes: reads the transaction id,
/// the static flag and the callee address from the call context, pops the
/// value and key offsets, reads key and value bytes out of memory, reads
/// the slot's warm flag, reads the slot itself for the storing variant, and
/// leaves the failed call.
pub fn oog_sload_sstore_gen_ops(state: &mut CircuitInputState, geth_steps: &Vec<TraceStep>) -> (r:
    Result<Vec<ExecStep>, Error>)
    requires
        handler_pre(*old(state)),
        geth_steps@.len() >= 1,
    ensures
        final(state).wf(),
        r.is_ok() <==> oog_sload_sstore_ok(geth_steps@),
        match r {
            Ok(steps) => {
                &&& steps@.len() == 1
                &&& steps@[0].error.is_none()
                &&& step_matches(steps@[0], geth_steps@[0], *old(state))
                &&& geth_steps@[0].stack@.len() >= 2
                &&& final(state).ops().len() >= old(state).ops().len() + 70
                &&& final(state).ops()[old(state).ops().len() as int] == (Operation {
                    rwc: (old(state).ops().len() + 1) as usize,
                    rw: RW::Read,
                    op: OpEnum::CallContext {
                        call_id: old(state).spec_call().call_id,
                        field: CallContextField::TxId,
                        value: Word { l0: old(state).tx_id as u64, l1: 0, l2: 0, l3: 0 },
                    },
                })
                &&& final(state).ops()[old(state).ops().len() + 1int] == (Operation {
                    rwc: (old(state).ops().len() + 2) as usize,
                    rw: RW::Read,
                    op: OpEnum::CallContext {
                        call_id: old(state).spec_call().call_id,
                        field: CallContextField::IsStatic,
                        value: Word {
                            l0: if old(state).spec_call().is_static {
                                1
                            } else {
                                0
                            },
                            l1: 0,
                            l2: 0,
                            l3: 0,
                        },
                    },
                })
                &&& final(state).ops()[old(state).ops().len() + 2int] == (Operation {
                    rwc: (old(state).ops().len() + 3) as usize,
                    rw: RW::Read,
                    op: OpEnum::CallContext {
                        call_id: old(state).spec_call().call_id,
                        field: CallContextField::CalleeAddress,
                        value: Word {
                            l0: old(state).spec_call().address.lo,
                            l1: old(state).spec_call().address.mid,
                            l2: old(state).spec_call().address.hi as u64,
                            l3: 0,
                        },
                    },
                })
                &&& final(state).ops()[old(state).ops().len() + 3int] == (Operation {
                    rwc: (old(state).ops().len() + 4) as usize,
                    rw: RW::Read,
                    op: OpEnum::Stack {
                        call_id: old(state).spec_call().call_id,
                        address: (1024 - geth_steps@[0].stack@.len()) as usize,
                        value: geth_steps@[0].stack@[geth_steps@[0].stack@.len() - 1],
                    },
                })
                &&& final(state).ops()[old(state).ops().len() + 4int] == (Operation {
                    rwc: (old(state).ops().len() + 5) as usize,
                    rw: RW::Read,
                    op: OpEnum::Stack {
                        call_id: old(state).spec_call().call_id,
                        address: (1024 - geth_steps@[0].stack@.len() + 1) as usize,
                        value: geth_steps@[0].stack@[geth_steps@[0].stack@.len() - 2],
                    },
                })
                &&& final(state).ops()[old(state).ops().len() + 69int].rw == RW::Read
                &&& final(state).ops()[old(state).ops().len() + 69int].op matches
                    OpEnum::TxAccessListAccountStorage { .. }
                &&& (geth_steps@[0].op == OpcodeId::SSTORE ==> final(state).ops()[old(
                    state,
                ).ops().len() + 70int].rw == RW::Read && final(state).ops()[old(state).ops().len()
                    + 70int].op matches OpEnum::Storage { .. })
                &&& final(state).call_stack@ == old(state).call_stack@.drop_last()
            },
            Err(_) => true,
        },
{
    let geth_step = &geth_steps[0];
    let mut exec_step = state.new_step(geth_step)?;
    let call = state.call()?;

    state.call_context_read(
        &mut exec_step,
        call.call_id,
        CallContextField::TxId,
        Word::from_u64(state.tx_id as u64),
    );
    let static_flag: u64 = if call.is_static {
        1
    } else {
        0
    };
    state.call_context_read(
        &mut exec_step,
        call.call_id,
        CallContextField::IsStatic,
        Word::from_u64(static_flag),
    );
    state.call_context_read(
        &mut exec_step,
        call.call_id,
        CallContextField::CalleeAddress,
        call.address.to_word(),
    );

    if geth_step.stack.len() < 2 || geth_step.stack.len() > 1024 {
        return Err(Error::StackAddressOutOfBound);
    }
    let value_offset = match geth_step.nth_last(0) {
        Ok(v) => v,
        Err(e) => { return Err(e); },
    };
    let address0 = geth_step.nth_last_filled(0);
    match state.stack_read(&mut exec_step, address0, value_offset) {
        Ok(()) => (),
        Err(e) => { return Err(e); },
    }
    let key_offset = match geth_step.nth_last(1) {
        Ok(v) => v,
        Err(e) => { return Err(e); },
    };
    let address1 = geth_step.nth_last_filled(1);
    match state.stack_read(&mut exec_step, address1, key_offset) {
        Ok(()) => (),
        Err(e) => { return Err(e); },
    }

    if key_offset > 0xffff_ffffu64 || value_offset > 0xffff_ffffu64 {
        return Err(Error::MemoryAddressOverflow);
    }
    let key_base = key_offset as usize;
    let value_base = value_offset as usize;
    let mem_len = geth_step.global_memory.len();
    if mem_len < 32 || key_base > mem_len - 32 || value_base > mem_len - 32 {
        return Err(Error::MemoryAddressOverflow);
    }
    let ghost ops_pre = state.ops();
    for i in 0..32usize
        invariant
            state.wf(),
            state.call_stack@ == old(state).call_stack@,
            state.calls@ == old(state).calls@,
            state.sdb == old(state).sdb,
            handler_pre(*old(state)),
            geth_steps@.len() >= 1,
            geth_step == &geth_steps@[0],
            mem_len == geth_steps@[0].global_memory@.len(),
            key_base + 32 <= mem_len,
            ops_pre.len() == old(state).ops().len() + 5,
            exec_step.error.is_none(),
            step_matches(exec_step, geth_steps@[0], *old(state)),
            state.ops().len() == ops_pre.len() + i,
            forall|j: int| 0 <= j < ops_pre.len() ==> #[trigger] state.ops()[j] == ops_pre[j],
    {
        let b = geth_step.global_memory[key_base + i];
        match state.memory_read(&mut exec_step, key_base + i, b) {
            Ok(()) => (),
            Err(e) => { return Err(e); },
        }
    }
    for i in 0..32usize
        invariant
            state.wf(),
            state.call_stack@ == old(state).call_stack@,
            state.calls@ == old(state).calls@,
            state.sdb == old(state).sdb,
            handler_pre(*old(state)),
            geth_steps@.len() >= 1,
            geth_step == &geth_steps@[0],
            mem_len == geth_steps@[0].global_memory@.len(),
            value_base + 32 <= mem_len,
            ops_pre.len() == old(state).ops().len() + 5,
            exec_step.error.is_none(),
            step_matches(exec_step, geth_steps@[0], *old(state)),
            state.ops().len() == ops_pre.len() + 32 + i,
            forall|j: int| 0 <= j < ops_pre.len() ==> #[trigger] state.ops()[j] == ops_pre[j],
    {
        let b = geth_step.global_memory[value_base + i];
        match state.memory_read(&mut exec_step, value_base + i, b) {
            Ok(()) => (),
            Err(e) => { return Err(e); },
        }
    }

    let key_word = Word::from_be_bytes(&geth_step.global_memory, key_base);
    let is_warm = state.sdb.check_account_storage_in_access_list(&call.address, &key_word);
    state.push_op(
        &mut exec_step,
        RW::Read,
        OpEnum::TxAccessListAccountStorage {
            tx_id: state.tx_id,
            address: call.address,
            key: key_word,
            is_warm,
            is_warm_prev: is_warm,
        },
    );

    if geth_step.op == OpcodeId::SSTORE {
        let cur = state.sdb.get_storage(&call.address, &key_word);
        match state.storage_read(&mut exec_step, state.tx_id, call.address, key_word, cur) {
            Ok(()) => (),
            Err(e) => { return Err(e); },
        }
    }

    state.handle_return(&mut exec_step, true)?;
    Ok(vec![exec_step])
}

/// The calldata-size handler: one call-context read of the call's data
/// length, one stack read of the destination offset, then the length's
/// bytes (as observed in the next step's result buffer) written to memory
/// at that offset.
pub fn calldatasize_gen_ops(state: &mut CircuitInputState, geth_steps: &Vec<TraceStep>) -> (r:
    Result<Vec<ExecStep>, Error>)
    requires
        handler_pre(*old(state)),
        geth_steps@.len() >= 1,
    ensures
        final(state).wf(),
        r.is_ok() <==> calldatasize_ok(geth_steps@),
        match r {
            Ok(steps) => {
                &&& steps@.len() == 1
                &&& steps@[0].error.is_none()
                &&& step_matches(steps@[0], geth_steps@[0], *old(state))
                &&& bmi_contiguous(steps@[0], old(state).ops().len() as int)
                &&& steps@[0].bus_mapping_instance@.len() == final(state).ops().len() - old(
                    state,
                ).ops().len()
                &&& final(state).sdb == old(state).sdb
                &&& geth_steps@.len() >= 2
                &&& 1 <= geth_steps@[0].stack@.len() <= 1024
                &&& final(state).ops()[old(state).ops().len() as int] == (Operation {
                    rwc: (old(state).ops().len() + 1) as usize,
                    rw: RW::Read,
                    op: OpEnum::CallContext {
                        call_id: old(state).spec_call().call_id,
                        field: CallContextField::CallDataLength,
                        value: Word {
                            l0: old(state).spec_call().call_data_length,
                            l1: 0,
                            l2: 0,
                            l3: 0,
                        },
                    },
                })
                &&& final(state).ops()[old(state).ops().len() + 1int] == (Operation {
                    rwc: (old(state).ops().len() + 2) as usize,
                    rw: RW::Read,
                    op: OpEnum::Stack {
                        call_id: old(state).spec_call().call_id,
                        address: (1024 - geth_steps@[0].stack@.len()) as usize,
                        value: geth_steps@[0].stack@[geth_steps@[0].stack@.len() - 1],
                    },
                })
                &&& final(state).ops().len() == old(state).ops().len() + 2
                    + geth_steps@[1].result_memory@.len()
            },
            Err(_) => true,
        },
{
    if geth_steps.len() < 2 {
        return Err(Error::IncompleteTrace);
    }
    let geth_step = &geth_steps[0];
    let next_step = &geth_steps[1];
    let mut exec_step = state.new_step(geth_step)?;
    let call = state.call()?;
    state.call_context_read(
        &mut exec_step,
        call.call_id,
        CallContextField::CallDataLength,
        Word::from_u64(call.call_data_length),
    );
    if geth_step.stack.len() == 0 || geth_step.stack.len() > 1024 {
        return Err(Error::StackAddressOutOfBound);
    }
    let dest_offset = match geth_step.nth_last(0) {
        Ok(v) => v,
        Err(e) => { return Err(e); },
    };
    let address0 = geth_step.nth_last_filled(0);
    match state.stack_read(&mut exec_step, address0, dest_offset) {
        Ok(()) => (),
        Err(e) => { return Err(e); },
    }
    if dest_offset > 0xffff_ffffu64 {
        return Err(Error::MemoryAddressOverflow);
    }
    let dest = dest_offset as usize;
    let m = next_step.result_memory.len();
    if m > 1024 || m > usize::MAX - dest {
        return Err(Error::MemoryAddressOverflow);
    }
    let ghost ops2 = state.ops();
    for i in 0..m
        invariant
            state.wf(),
            state.call_stack@ == old(state).call_stack@,
            state.calls@ == old(state).calls@,
            state.sdb == old(state).sdb,
            handler_pre(*old(state)),
            geth_steps@.len() >= 2,
            next_step == &geth_steps@[1],
            m == geth_steps@[1].result_memory@.len(),
            m <= 1024,
            m <= usize::MAX - dest,
            exec_step.error.is_none(),
            step_matches(exec_step, geth_steps@[0], *old(state)),
            bmi_contiguous(exec_step, old(state).ops().len() as int),
            exec_step.bus_mapping_instance@.len() == 2 + i,
            ops2.len() == old(state).ops().len() + 2,
            forall|j: int| 0 <= j < ops2.len() ==> #[trigger] state.ops()[j] == ops2[j],
            state.ops().len() == ops2.len() + i,
        decreases m - i,
    {
        let b = next_step.result_memory[i];
        match state.memory_write(&mut exec_step, dest + i, b) {
            Ok(()) => (),
            Err(e) => { return Err(e); },
        }
    }
    let mem = copy_bytes(&next_step.global_memory);
    state.set_call_memory(mem);
    Ok(vec![exec_step])
}

/// Whether a handler shape's parameters lie in the ranges the handlers
/// accept; every shape the dispatch tables produce satisfies this.
pub open spec fn handler_params_ok(h: Handler) -> bool {
    match h {
        Handler::StackOnly { n_pop, n_push, .. } => n_pop <= 1024 && n_push <= 1024,
        Handler::StackToMemory { n_pop, el_bytes } => n_pop <= 16 && (el_bytes == 0 || el_bytes
            == 8 || el_bytes == 32),
        Handler::CallFamilyError { n_pop } => 2 <= n_pop <= 16,
        _ => true,
    }
}

/// Exactly when the call-family error handler succeeds: the operands fit
/// the first step's stack segment.
pub open spec fn call_family_error_ok(steps: Seq<TraceStep>, n_pop: int) -> bool {
    n_pop <= steps[0].stack@.len() <= 1024
}

/// Exactly when the selected handler succeeds on its inputs.
pub open spec fn handler_input_ok(
    h: Handler,
    db: crate::state_db::StateDB,
    sender: crate::word::Address,
    steps: Seq<TraceStep>,
) -> bool {
    match h {
        Handler::Dummy => true,
        Handler::Stop => true,
        Handler::StackOnly { n_pop, n_push, is_err } => stack_only_ok(
            steps,
            n_pop as int,
            n_push as int,
            is_err,
        ),
        Handler::StackToMemory { n_pop, el_bytes } => stack_to_memory_ok(
            steps,
            n_pop as int,
            el_bytes as int,
        ),
        Handler::Callvalue => callvalue_ok(steps),
        Handler::Calldatasize => calldatasize_ok(steps),
        Handler::SelfDestruct => selfdestruct_ok(db, sender, steps),
        Handler::OogSloadSstore => oog_sload_sstore_ok(steps),
        Handler::CallFamilyError { n_pop } => call_family_error_ok(steps, n_pop as int),
    }
}

/// Whether any step of the window carries a result-memory image, which is
/// what switches the memory consistency check on.
pub open spec fn spec_memory_enabled(steps: Seq<TraceStep>) -> bool {
    exists|i: int| 0 <= i < steps.len() && (#[trigger] steps[i]).result_memory@.len() > 0
}

/// A failing call- or create-family opcode: pops the family's operands
/// top-down, then parses the child frame and — when its depth fits the
/// bound — enters and immediately leaves it, so the child is recorded in
/// the call arena and later steps reference a valid call id.  An over-deep
/// child is never entered; the caller stays live either way.
pub fn call_family_error_gen_ops(
    state: &mut CircuitInputState,
    geth_steps: &Vec<TraceStep>,
    n_pop: usize,
) -> (r: Result<Vec<ExecStep>, Error>)
    requires
        handler_pre(*old(state)),
        geth_steps@.len() >= 1,
        2 <= n_pop <= 16,
    ensures
        final(state).wf(),
        r.is_ok() <==> call_family_error_ok(geth_steps@, n_pop as int),
        match r {
            Ok(steps) => {
                &&& steps@.len() == 1
                &&& steps@[0].error.is_none()
                &&& step_matches(steps@[0], geth_steps@[0], *old(state))
                &&& bmi_contiguous(steps@[0], old(state).ops().len() as int)
                &&& final(state).ops().len() >= old(state).ops().len() + n_pop
                &&& (forall|i: int|
                    0 <= i < n_pop ==> #[trigger] final(state).ops()[old(state).ops().len() + i]
                        == (Operation {
                        rwc: (old(state).ops().len() + 1 + i) as usize,
                        rw: RW::Read,
                        op: OpEnum::Stack {
                            call_id: old(state).spec_call().call_id,
                            address: (1024 - geth_steps@[0].stack@.len() + i) as usize,
                            value: geth_steps@[0].stack@[geth_steps@[0].stack@.len() - 1 - i],
                        },
                    }))
                &&& (forall|k: crate::state_db::DbKey|
                    #[trigger] final(state).sdb.db_read(k) == old(state).sdb.db_read(k))
                &&& final(state).call_stack@.len() == old(state).call_stack@.len()
                &&& (old(state).spec_call().depth + 1 <= crate::exec_step::MAX_CALL_DEPTH ==> {
                    &&& final(state).calls@.len() == old(state).calls@.len() + 1
                    &&& final(state).calls@.last().call_id == old(state).next_call_id
                    &&& final(state).calls@.last().depth == old(state).spec_call().depth + 1
                    &&& final(state).calls@.last().caller_address == old(
                        state,
                    ).spec_call().address
                    &&& (forall|j: int|
                        0 <= j < old(state).calls@.len() ==> #[trigger] final(state).calls@[j]
                            == old(state).calls@[j])
                })
                &&& (old(state).spec_call().depth + 1 > crate::exec_step::MAX_CALL_DEPTH
                    ==> final(state).calls@ == old(state).calls@)
            },
            Err(_) => true,
        },
{
    let geth_step = &geth_steps[0];
    let mut exec_step = state.new_step(geth_step)?;
    if geth_step.stack.len() > 1024 {
        return Err(Error::StackAddressOutOfBound);
    }
    if n_pop > geth_step.stack.len() {
        return Err(Error::StackAddressOutOfBound);
    }
    let ghost ops0 = old(state).ops();
    for i in 0..n_pop
        invariant
            state.wf(),
            state.call_stack@ == old(state).call_stack@,
            state.calls@ == old(state).calls@,
            state.sdb == old(state).sdb,
            state.next_call_id == old(state).next_call_id,
            handler_pre(*old(state)),
            geth_steps@.len() >= 1,
            i <= n_pop <= geth_steps@[0].stack@.len() <= 1024,
            2 <= n_pop <= 16,
            geth_step == &geth_steps@[0],
            ops0 == old(state).ops(),
            exec_step.error.is_none(),
            step_matches(exec_step, geth_steps@[0], *old(state)),
            bmi_contiguous(exec_step, ops0.len() as int),
            exec_step.bus_mapping_instance@.len() == i,
            state.ops().len() == ops0.len() + i,
            forall|j: int| 0 <= j < ops0.len() ==> #[trigger] state.ops()[j] == ops0[j],
            forall|j: int|
                0 <= j < i ==> #[trigger] state.ops()[ops0.len() + j] == (Operation {
                    rwc: (ops0.len() + 1 + j) as usize,
                    rw: RW::Read,
                    op: OpEnum::Stack {
                        call_id: old(state).spec_call().call_id,
                        address: (1024 - geth_steps@[0].stack@.len() + j) as usize,
                        value: geth_steps@[0].stack@[geth_steps@[0].stack@.len() - 1 - j],
                    },
                }),
    {
        let value = match geth_step.nth_last(i) {
            Ok(v) => v,
            Err(e) => { return Err(e); },
        };
        let address = geth_step.nth_last_filled(i);
        match state.stack_read(&mut exec_step, address, value) {
            Ok(()) => (),
            Err(e) => { return Err(e); },
        }
    }
    proof {
        assert(state.spec_call().depth <= crate::exec_step::MAX_CALL_DEPTH);
    }
    let child = match state.parse_call(geth_step) {
        Ok(c) => c,
        Err(e) => { return Err(e); },
    };
    if child.depth <= crate::exec_step::MAX_CALL_DEPTH {
        let mem = copy_bytes(&geth_step.global_memory);
        state.push_call(child, mem);
        state.handle_return(&mut exec_step, false)?;
        proof {
            assert forall|k: crate::state_db::DbKey| true implies #[trigger] state.sdb.db_read(k)
                == old(state).sdb.db_read(k) by {
                assert(crate::state::db_view(old(state).sdb)[k] == old(state).sdb.db_read(k));
            }
        }
    }
    Ok(vec![exec_step])
}

/// Runs the selected handler shape.
fn run_handler(h: Handler, state: &mut CircuitInputState, geth_steps: &Vec<TraceStep>) -> (r:
    Result<Vec<ExecStep>, Error>)
    requires
        handler_pre(*old(state)),
        geth_steps@.len() >= 1,
    ensures
        final(state).wf(),
        r.is_ok() <==> handler_params_ok(h) && handler_input_ok(
            h,
            old(state).sdb,
            old(state).spec_call().address,
            geth_steps@,
        ),
        match r {
            Ok(v) => v@.len() == 1 && v@[0].error.is_none() && step_matches(
                v@[0],
                geth_steps@[0],
                *old(state),
            ),
            Err(_) => true,
        },
        (h matches Handler::CallFamilyError { .. } && r.is_ok() && old(state).spec_call().depth
            + 1 <= crate::exec_step::MAX_CALL_DEPTH) ==> final(state).calls@.len() == old(
            state,
        ).calls@.len() + 1 && final(state).calls@.last().call_id == old(state).next_call_id,
{
    match h {
        Handler::Dummy => dummy_gen_ops(state, geth_steps),
        Handler::Stop => stop_gen_ops(state, geth_steps),
        Handler::StackOnly { n_pop, n_push, is_err } => {
            if n_pop > 1024 || n_push > 1024 {
                return Err(Error::StackAddressOutOfBound);
            }
            stack_only_gen_ops(state, geth_steps, n_pop, n_push, is_err)
        },
        Handler::StackToMemory { n_pop, el_bytes } => {
            if n_pop > 16 || !(el_bytes == 0 || el_bytes == 8 || el_bytes == 32) {
                return Err(Error::StackAddressOutOfBound);
            }
            stack_to_memory_gen_ops(state, geth_steps, n_pop, el_bytes)
        },
        Handler::Callvalue => callvalue_gen_ops(state, geth_steps),
        Handler::Calldatasize => calldatasize_gen_ops(state, geth_steps),
        Handler::SelfDestruct => dummy_gen_selfdestruct_ops(state, geth_steps),
        Handler::OogSloadSstore => oog_sload_sstore_gen_ops(state, geth_steps),
        Handler::CallFamilyError { n_pop } => {
            if n_pop < 2 || n_pop > 16 {
                return Err(Error::StackAddressOutOfBound);
            }
            call_family_error_gen_ops(state, geth_steps, n_pop)
        },
    }
}

/// Generates the operations of one trace step.  The step is first checked
/// against the state's memory image (strictly or leniently), then
/// classified: an error routes through the error dispatch table, with a
/// generic return-and-rollback fallback; otherwise the opcode's handler
/// runs and the call's memory snapshot is advanced.
pub fn gen_associated_ops(
    opcode_id: &OpcodeId,
    state: &mut CircuitInputState,
    geth_steps: &Vec<TraceStep>,
) -> (r: Result<Vec<ExecStep>, Error>)
    requires
        handler_pre(*old(state)),
        geth_steps@.len() >= 1,
        old(state).next_call_id < usize::MAX,
    ensures
        final(state).wf(),
        // a memory divergence is fatal under strict checking and is the
        // only source of that error; under lenient checking the trace's
        // image is adopted and processing continues
        spec_memory_enabled(geth_steps@) && !(old(state).call_stack@.last().memory@
            =~= geth_steps@[0].global_memory@) && old(state).check_mem_strict ==> r == Err::<
            Vec<ExecStep>,
            Error,
        >(Error::TraceMemoryMismatch),
        !(spec_memory_enabled(geth_steps@) && !(old(state).call_stack@.last().memory@
            =~= geth_steps@[0].global_memory@) && old(state).check_mem_strict) ==> {
            let c = crate::state::spec_classify(old(state).spec_call(), geth_steps@[0]);
            &&& (r matches Ok(v) ==> v@.len() == 1 && v@[0].error == c && step_matches(
                v@[0],
                geth_steps@[0],
                *old(state),
            ))
            // a dispatched call- or create-family failure still records the
            // parsed child frame in the call arena, so later steps
            // reference a valid call id
            &&& (match c {
                Some(err) => (spec_error_handler_of(geth_steps@[0].op, err) matches Some(
                    Handler::CallFamilyError { .. }) && r.is_ok() && old(state).spec_call().depth
                    + 1 <= crate::exec_step::MAX_CALL_DEPTH) ==> final(state).calls@.len() == old(
                    state,
                ).calls@.len() + 1 && final(state).calls@.last().call_id == old(
                    state,
                ).next_call_id,
                None => true,
            })
            &&& match c {
                None => r.is_ok() <==> handler_params_ok(spec_handler_of(*opcode_id))
                    && handler_input_ok(
                    spec_handler_of(*opcode_id),
                    old(state).sdb,
                    old(state).spec_call().address,
                    geth_steps@,
                ),
                Some(err) => match spec_error_handler_of(geth_steps@[0].op, err) {
                    Some(h) => r.is_ok() <==> handler_params_ok(h) && handler_input_ok(
                        h,
                        old(state).sdb,
                        old(state).spec_call().address,
                        geth_steps@,
                    ),
                    None => r.is_ok() <==> (crate::opcode::spec_is_call_or_create(
                        geth_steps@[0].op,
                    ) && err != ExecError::OutOfGas(OogError::Create)
                        ==> geth_steps@[0].stack@.len() >= 2),
                },
            }
        },
        // on the error-free path the surviving call's memory snapshot
        // advances to the following step's image
        r.is_ok() && crate::state::spec_classify(old(state).spec_call(), geth_steps@[0]).is_none()
            && final(state).call_stack@.len() > 0 ==> final(state).call_stack@.last().memory@
            == if geth_steps@.len() > 1 {
            geth_steps@[1].global_memory@
        } else {
            geth_steps@[0].global_memory@
        },
{
    // whether any step of this window carries a memory image at all
    let mut memory_enabled = false;
    let n = geth_steps.len();
    for i in 0..n
        invariant
            n == geth_steps@.len(),
            memory_enabled == exists|j: int|
                0 <= j < i && (#[trigger] geth_steps@[j]).result_memory@.len() > 0,
    {
        if geth_steps[i].result_memory.len() > 0 {
            memory_enabled = true;
        }
    }
    if memory_enabled {
        if !state.call_memory_matches(&geth_steps[0].global_memory) {
            if state.check_mem_strict {
                return Err(Error::TraceMemoryMismatch);
            }
            let fixed = copy_bytes(&geth_steps[0].global_memory);
            state.set_call_memory(fixed);
        }
    }

    let geth_step = &geth_steps[0];
    let mut exec_step = state.new_step(geth_step)?;
    let maybe_err = if geth_steps.len() > 1 {
        state.get_step_err(geth_step, Some(&geth_steps[1]))?
    } else {
        state.get_step_err(geth_step, None)?
    };
    if let Some(exec_error) = maybe_err {
        exec_step.error = Some(exec_error);
        if let Some(handler) = fn_gen_error_state_associated_ops(geth_step, &exec_error) {
            let ghost st_pre = *state;
            let mut v = run_handler(handler, state, geth_steps)?;
            proof {
                assert(step_matches(v@[0], geth_steps@[0], *old(state)));
                assert(st_pre.spec_call() == old(state).spec_call());
                assert(st_pre.calls@ == old(state).calls@);
                assert(st_pre.next_call_id == old(state).next_call_id);
            }
            let mut s0 = v.pop().unwrap();
            s0.error = Some(exec_error);
            return Ok(vec![s0]);
        }
        // exceptions without a dedicated handler: a failing call or create
        // whose depth still fits enters (and immediately leaves) its child
        // frame, so later steps reference a valid call id; one that would
        // exceed the depth bound never enters a frame and the caller stays
        // live; a failing non-call opcode restores the caller's context by
        // leaving the current frame
        let mut need_restore = true;
        let mut entered_child = false;
        let is_oog_create = matches!(exec_error, ExecError::OutOfGas(OogError::Create));
        let is_call_like = geth_step.op.is_call_or_create() && !is_oog_create;
        if is_call_like {
            proof {
                assert(state.spec_call().depth <= crate::exec_step::MAX_CALL_DEPTH);
            }
            let child = state.parse_call(geth_step)?;
            if child.depth <= crate::exec_step::MAX_CALL_DEPTH {
                let mem = copy_bytes(&geth_step.global_memory);
                state.push_call(child, mem);
                need_restore = false;
                entered_child = true;
            }
        }
        if entered_child || !is_call_like {
            state.handle_return(&mut exec_step, need_restore)?;
        }
        return Ok(vec![exec_step]);
    }

    let handler = fn_gen_associated_ops(opcode_id);
    let res = run_handler(handler, state, geth_steps)?;
    proof {
        assert(step_matches(res@[0], geth_steps@[0], *old(state)));
    }
    // advance the call's memory snapshot to the post-step image
    if state.has_call() {
        if geth_steps.len() > 1 {
            let mem = copy_bytes(&geth_steps[1].global_memory);
            state.set_call_memory(mem);
        } else {
            let mem = copy_bytes(&geth_steps[0].global_memory);
            state.set_call_memory(mem);
        }
    }
    Ok(res)
}

} // verus!
