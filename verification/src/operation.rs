//! The append-only, strictly ordered log of typed read/write operations.
//!
//! Every operation is tagged with the next value of the global read/write
//! counter at append time.  The counter starts at 1, is gapless and strictly
//! increasing; that is the container's well-formedness invariant and is
//! restated as a public lemma below.

use vstd::prelude::*;
use crate::RWCounter;
use crate::word::{Address, Word};

verus! {

/// Read or write tag of an operation.
#[derive(Clone, Copy, Debug, PartialEq, Eq, Structural)]
pub enum RW {
    Read,
    Write,
}

/// The field of an account that an `Account` operation touches.
#[derive(Clone, Copy, Debug, PartialEq, Eq, Structural)]
pub enum AccountField {
    Nonce,
    Balance,
    CodeHash,
}

/// The field of a call context that a `CallContext` operation touches.
#[derive(Clone, Copy, Debug, PartialEq, Eq, Structural)]
pub enum CallContextField {
    TxId,
    RwCounterEndOfReversion,
    IsPersistent,
    IsSuccess,
    Depth,
    CallerAddress,
    CalleeAddress,
    CallDataOffset,
    CallDataLength,
    Value,
    IsStatic,
    LastCalleeId,
    LastCalleeReturnDataOffset,
    LastCalleeReturnDataLength,
    IsRoot,
    IsCreate,
    CodeHash,
}

/// The field of a transaction receipt that a `TxReceipt` operation touches.
#[derive(Clone, Copy, Debug, PartialEq, Eq, Structural)]
pub enum TxReceiptField {
    PostStateOrStatus,
    LogLength,
    CumulativeGasUsed,
}

/// The field of a transaction log entry that a `TxLog` operation touches.
#[derive(Clone, Copy, Debug, PartialEq, Eq, Structural)]
pub enum TxLogField {
    Address,
    Topic,
    Data,
}

/// One typed operation, without its counter tag.
#[derive(Clone, Copy, Debug, PartialEq, Eq, Structural)]
pub enum OpEnum {
    /// A read or write of one stack slot of a call.
    Stack { call_id: usize, address: usize, value: u64 },
    /// A read or write of one byte of a call's memory.
    Memory { call_id: usize, address: usize, byte: u8 },
    /// A read or write of one interpreter global variable.
    Global { call_id: usize, index: u32, value: u64 },
    /// A read or write of one storage slot of an account.
    Storage {
        tx_id: usize,
        address: Address,
        key: Word,
        value: Word,
        value_prev: Word,
    },
    /// A read or write of one field of an account.
    Account {
        address: Address,
        field: AccountField,
        value: Word,
        value_prev: Word,
    },
    /// A read or write of one field of a call context.
    CallContext { call_id: usize, field: CallContextField, value: Word },
    /// A write (or read) of the warm flag of an address in the access list.
    TxAccessListAccount {
        tx_id: usize,
        address: Address,
        is_warm: bool,
        is_warm_prev: bool,
    },
    /// A write (or read) of the warm flag of a storage slot in the access list.
    TxAccessListAccountStorage {
        tx_id: usize,
        address: Address,
        key: Word,
        is_warm: bool,
        is_warm_prev: bool,
    },
    /// A read or write of the transaction's gas refund counter.
    TxRefund { tx_id: usize, value: u64, value_prev: u64 },
    /// A read or write of one field of the transaction's receipt.
    TxReceipt { tx_id: usize, field: TxReceiptField, value: u64 },
    /// A read or write of one field of one log entry of the transaction.
    TxLog {
        tx_id: usize,
        log_id: usize,
        field: TxLogField,
        index: usize,
        value: Word,
    },
}

/// One log entry: an operation tagged with its read/write counter value.
#[derive(Clone, Copy, Debug, PartialEq, Eq, Structural)]
pub struct Operation {
    pub rwc: RWCounter,
    pub rw: RW,
    pub op: OpEnum,
}

/// The append-only operation log of one block.
#[derive(Clone, Debug)]
pub struct OperationContainer {
    pub ops: Vec<Operation>,
}

impl OperationContainer {
    /// Counter values are gapless and start at 1.
    pub open spec fn wf(self) -> bool {
        forall|i: int| 0 <= i < self.ops@.len() ==> (#[trigger] self.ops@[i]).rwc == 1 + i
    }

    pub fn new() -> (r: OperationContainer)
        ensures
            r.wf(),
            r.ops@.len() == 0,
    {
        OperationContainer { ops: Vec::new() }
    }

    /// Appends an operation, assigning it the next counter value; returns its
    /// index in the log.
    pub fn push(&mut self, rw: RW, op: OpEnum) -> (idx: usize)
        requires
            old(self).wf(),
            old(self).ops@.len() < usize::MAX,
        ensures
            final(self).wf(),
            idx == old(self).ops@.len(),
            final(self).ops@ == old(self).ops@.push(
                Operation { rwc: (old(self).ops@.len() + 1) as usize, rw, op },
            ),
    {
        let idx = self.ops.len();
        self.ops.push(Operation { rwc: idx + 1, rw, op });
        idx
    }
}

/// The read/write counter is strictly increasing over the log, with no gaps:
/// the operation at index `i` carries counter value `1 + i` exactly.
pub proof fn lemma_rwc_strictly_monotonic(c: OperationContainer)
    requires
        c.wf(),
    ensures
        forall|i: int, j: int|
            0 <= i < j < c.ops@.len() ==> (#[trigger] c.ops@[i]).rwc < (#[trigger] c.ops@[j]).rwc,
        forall|i: int|
            0 < i < c.ops@.len() ==> (#[trigger] c.ops@[i]).rwc == c.ops@[i - 1].rwc + 1,
{
}

} // verus!
