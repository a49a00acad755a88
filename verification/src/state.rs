//! The circuit input state: the mutable cursor threaded through every opcode
//! handler.
//!
//! It is the single source of truth correlating the live state database, the
//! in-flight call stack and the growing operation log.  Every primitive both
//! validates against the database and appends to the log; the contracts pin
//! down exactly which operation is appended and how the database moves.

use vstd::prelude::*;
use crate::error::{Error, ExecError};
use crate::exec_step::{Call, CallContext, ExecState, ExecStep, TraceStep, MAX_CALL_DEPTH};
use crate::opcode::{spec_is_call_or_create, spec_oog_class, spec_writes_state, OpcodeId};
use crate::operation::{
    AccountField, CallContextField, OpEnum, Operation, OperationContainer, RW, TxReceiptField,
};
use crate::reversion::{is_reversible, rev_key, rev_prev, rev_value, revert_entries, swap_op};
use crate::state_db::{Account, DbKey, StateDB};
use crate::word::{Address, Word};

verus! {

/// The transaction-level inputs of the pass.
#[derive(Debug)]
pub struct TxData {
    pub nonce: u64,
    pub gas: u64,
    pub gas_price: Word,
    pub value: Word,
    pub input: Vec<u8>,
    pub is_create: bool,
    pub caller_address: Address,
    pub callee_address: Address,
    pub l1_fee: Word,
}

/// The block-level inputs of the pass.
#[derive(Debug)]
pub struct BlockData {
    pub coinbase: Address,
    pub base_fee: Word,
    /// Byte strings registered for hashing verification (contract-address
    /// derivation preimages).
    pub sha3_inputs: Vec<Vec<u8>>,
}

/// The database as one total key-to-value map.
pub open spec fn db_view(db: StateDB) -> Map<DbKey, int> {
    Map::new(|k: DbKey| true, |k: DbKey| db.db_read(k))
}

/// The orchestrator threaded through every opcode handler.
#[derive(Debug)]
pub struct CircuitInputState {
    pub sdb: StateDB,
    pub container: OperationContainer,
    pub block: BlockData,
    pub tx: TxData,
    pub tx_id: usize,
    pub is_last_tx: bool,
    pub cumulative_gas_used: u64,
    /// Arena of every call frame of the transaction, in creation order.
    pub calls: Vec<Call>,
    /// Live frames, innermost last.
    pub call_stack: Vec<CallContext>,
    /// Next unique call id.
    pub next_call_id: usize,
    /// Whether a divergence between the state's memory image and the
    /// trace's is fatal (strict) or is logged and fixed up (lenient).
    pub check_mem_strict: bool,
}

impl CircuitInputState {
    /// Everything primitives preserve: a well-formed counter sequence, live
    /// frames pointing into the arena, and reversible logs that really are
    /// reversible writes with representable values.
    pub open spec fn wf(self) -> bool {
        &&& self.container.wf()
        &&& forall|i: int|
            0 <= i < self.call_stack@.len() ==> (#[trigger] self.call_stack@[i]).call_index
                < self.calls@.len()
        &&& forall|i: int|
            0 <= i < self.call_stack@.len() ==> rev_log_wf(
                (#[trigger] self.call_stack@[i]).reversible@,
            )
        &&& forall|i: int|
            0 <= i < self.calls@.len() ==> (#[trigger] self.calls@[i]).depth <= MAX_CALL_DEPTH
    }

    pub open spec fn ops(self) -> Seq<Operation> {
        self.container.ops@
    }

    /// Whether some call frame is live.
    pub fn has_call(&self) -> (r: bool)
        ensures
            r == (self.call_stack@.len() > 0),
    {
        self.call_stack.len() > 0
    }

    /// The current (innermost) call frame.
    pub fn call(&self) -> (r: Result<Call, Error>)
        requires
            self.wf(),
        ensures
            match r {
                Ok(c) => self.call_stack@.len() > 0 && c == self.spec_call(),
                Err(e) => self.call_stack@.len() == 0 && e == Error::NoCallContext,
            },
    {
        if self.call_stack.len() == 0 {
            Err(Error::NoCallContext)
        } else {
            let idx = self.call_stack[self.call_stack.len() - 1].call_index;
            Ok(self.calls[idx])
        }
    }

    /// The current call, as the arena entry the top frame points to.
    pub open spec fn spec_call(self) -> Call {
        self.calls@[self.call_stack@.last().call_index as int]
    }

    /// Allocates a witness row for one trace step, bound to the current call
    /// and to the next counter value.
    pub fn new_step(&self, step: &TraceStep) -> (r: Result<ExecStep, Error>)
        requires
            self.wf(),
            self.ops().len() < usize::MAX,
        ensures
            match r {
                Ok(s) => self.call_stack@.len() > 0 && s.exec_state == ExecState::Op(step.op)
                    && s.pc == step.pc && s.gas_left == step.gas && s.gas_cost == step.gas_cost
                    && s.stack_size == step.stack@.len()
                    && s.call_index == self.call_stack@.last().call_index
                    && s.rwc_start == self.ops().len() + 1
                    && s.bus_mapping_instance@.len() == 0 && s.error.is_none(),
                Err(e) => self.call_stack@.len() == 0 && e == Error::NoCallContext,
            },
    {
        if self.call_stack.len() == 0 {
            return Err(Error::NoCallContext);
        }
        let call_index = self.call_stack[self.call_stack.len() - 1].call_index;
        Ok(ExecStep {
            exec_state: ExecState::Op(step.op),
            pc: step.pc,
            stack_size: step.stack.len(),
            gas_left: step.gas,
            gas_cost: step.gas_cost,
            call_index,
            rwc_start: self.container.ops.len() + 1,
            bus_mapping_instance: Vec::new(),
            error: None,
            function_index: 0,
            num_locals: 0,
            max_stack_height: 0,
            log_id: 0,
        })
    }

    /// Appends one operation to the log and records its index in the step's
    /// bus-mapping instance.
    pub fn push_op(&mut self, step: &mut ExecStep, rw: RW, op: OpEnum)
        requires
            old(self).wf(),
            old(self).ops().len() < usize::MAX - 1,
        ensures
            scalar_frame(*old(self), *final(self)),
            final(self).wf(),
            final(self).ops() == old(self).ops().push(
                Operation { rwc: (old(self).ops().len() + 1) as usize, rw, op },
            ),
            final(self).sdb == old(self).sdb,
            final(self).call_stack@ == old(self).call_stack@,
            final(self).calls@ == old(self).calls@,
            final(self).block.sha3_inputs@ == old(self).block.sha3_inputs@,
            final(self).cumulative_gas_used == old(self).cumulative_gas_used,
            final(step).bus_mapping_instance@ == old(step).bus_mapping_instance@.push(
                old(self).ops().len() as usize,
            ),
            step_fields_unchanged(*old(step), *final(step)),
    {
        let idx = self.container.push(rw, op);
        step.bus_mapping_instance.push(idx);
    }

    /// Reads one stack slot: asserts nothing of the database, appends the
    /// matching stack operation.  Fails when the address is outside the
    /// 1024-slot segment.
    pub fn stack_read(&mut self, step: &mut ExecStep, address: usize, value: u64) -> (r: Result<
        (),
        Error,
    >)
        requires
            old(self).wf(),
            old(self).ops().len() < usize::MAX - 1,
            old(self).call_stack@.len() > 0,
        ensures
            scalar_frame(*old(self), *final(self)),
            final(self).wf(),
            match r {
                Ok(()) => address < 1024 && final(self).ops() == old(self).ops().push(
                    Operation {
                        rwc: (old(self).ops().len() + 1) as usize,
                        rw: RW::Read,
                        op: OpEnum::Stack {
                            call_id: old(self).spec_call().call_id,
                            address,
                            value,
                        },
                    },
                ) && final(step).bus_mapping_instance@
                    == old(step).bus_mapping_instance@.push(old(self).ops().len() as usize),
                Err(e) => e == Error::StackAddressOutOfBound && address >= 1024 && final(self).ops()
                    == old(self).ops() && final(step).bus_mapping_instance@
                    == old(step).bus_mapping_instance@,
            },
            final(self).sdb == old(self).sdb,
            final(self).call_stack@ == old(self).call_stack@,
            final(self).calls@ == old(self).calls@,
            step_fields_unchanged(*old(step), *final(step)),
    {
        if address >= 1024 {
            return Err(Error::StackAddressOutOfBound);
        }
        let call = self.call_stack[self.call_stack.len() - 1].call_index;
        let call_id = self.calls[call].call_id;
        self.push_op(step, RW::Read, OpEnum::Stack { call_id, address, value });
        Ok(())
    }

    /// Writes one stack slot; the written value is trusted from the trace.
    pub fn stack_write(&mut self, step: &mut ExecStep, address: usize, value: u64) -> (r: Result<
        (),
        Error,
    >)
        requires
            old(self).wf(),
            old(self).ops().len() < usize::MAX - 1,
            old(self).call_stack@.len() > 0,
        ensures
            scalar_frame(*old(self), *final(self)),
            final(self).wf(),
            match r {
                Ok(()) => address < 1024 && final(self).ops() == old(self).ops().push(
                    Operation {
                        rwc: (old(self).ops().len() + 1) as usize,
                        rw: RW::Write,
                        op: OpEnum::Stack {
                            call_id: old(self).spec_call().call_id,
                            address,
                            value,
                        },
                    },
                ) && final(step).bus_mapping_instance@
                    == old(step).bus_mapping_instance@.push(old(self).ops().len() as usize),
                Err(e) => e == Error::StackAddressOutOfBound && address >= 1024 && final(self).ops()
                    == old(self).ops() && final(step).bus_mapping_instance@
                    == old(step).bus_mapping_instance@,
            },
            final(self).sdb == old(self).sdb,
            final(self).call_stack@ == old(self).call_stack@,
            final(self).calls@ == old(self).calls@,
            step_fields_unchanged(*old(step), *final(step)),
    {
        if address >= 1024 {
            return Err(Error::StackAddressOutOfBound);
        }
        let call = self.call_stack[self.call_stack.len() - 1].call_index;
        let call_id = self.calls[call].call_id;
        self.push_op(step, RW::Write, OpEnum::Stack { call_id, address, value });
        Ok(())
    }

    /// Writes one byte of the current call's memory image.  Bounds and gas
    /// for memory growth are validated by the opcode handler, not here.
    pub fn memory_write(&mut self, step: &mut ExecStep, address: usize, byte: u8) -> (r: Result<
        (),
        Error,
    >)
        requires
            old(self).wf(),
            old(self).ops().len() < usize::MAX - 1,
            old(self).call_stack@.len() > 0,
        ensures
            scalar_frame(*old(self), *final(self)),
            final(self).wf(),
            r.is_ok(),
            final(self).ops() == old(self).ops().push(
                Operation {
                    rwc: (old(self).ops().len() + 1) as usize,
                    rw: RW::Write,
                    op: OpEnum::Memory {
                        call_id: old(self).spec_call().call_id,
                        address,
                        byte,
                    },
                },
            ),
            final(step).bus_mapping_instance@ == old(step).bus_mapping_instance@.push(
                old(self).ops().len() as usize,
            ),
            final(self).sdb == old(self).sdb,
            final(self).call_stack@ == old(self).call_stack@,
            final(self).calls@ == old(self).calls@,
            step_fields_unchanged(*old(step), *final(step)),
    {
        let call = self.call_stack[self.call_stack.len() - 1].call_index;
        let call_id = self.calls[call].call_id;
        self.push_op(step, RW::Write, OpEnum::Memory { call_id, address, byte });
        Ok(())
    }

    /// Reads one byte of the current call's memory image; the value is
    /// trusted from the trace.
    pub fn memory_read(&mut self, step: &mut ExecStep, address: usize, byte: u8) -> (r: Result<
        (),
        Error,
    >)
        requires
            old(self).wf(),
            old(self).ops().len() < usize::MAX - 1,
            old(self).call_stack@.len() > 0,
        ensures
            scalar_frame(*old(self), *final(self)),
            final(self).wf(),
            r.is_ok(),
            final(self).ops() == old(self).ops().push(
                Operation {
                    rwc: (old(self).ops().len() + 1) as usize,
                    rw: RW::Read,
                    op: OpEnum::Memory {
                        call_id: old(self).spec_call().call_id,
                        address,
                        byte,
                    },
                },
            ),
            final(step).bus_mapping_instance@ == old(step).bus_mapping_instance@.push(
                old(self).ops().len() as usize,
            ),
            final(self).sdb == old(self).sdb,
            final(self).call_stack@ == old(self).call_stack@,
            final(self).calls@ == old(self).calls@,
            step_fields_unchanged(*old(step), *final(step)),
    {
        let call = self.call_stack[self.call_stack.len() - 1].call_index;
        let call_id = self.calls[call].call_id;
        self.push_op(step, RW::Read, OpEnum::Memory { call_id, address, byte });
        Ok(())
    }

    /// Writes one interpreter global variable.
    pub fn global_write(&mut self, step: &mut ExecStep, index: u32, value: u64) -> (r: Result<
        (),
        Error,
    >)
        requires
            old(self).wf(),
            old(self).ops().len() < usize::MAX - 1,
            old(self).call_stack@.len() > 0,
        ensures
            scalar_frame(*old(self), *final(self)),
            final(self).wf(),
            r.is_ok(),
            final(self).ops() == old(self).ops().push(
                Operation {
                    rwc: (old(self).ops().len() + 1) as usize,
                    rw: RW::Write,
                    op: OpEnum::Global {
                        call_id: old(self).spec_call().call_id,
                        index,
                        value,
                    },
                },
            ),
            final(step).bus_mapping_instance@ == old(step).bus_mapping_instance@.push(
                old(self).ops().len() as usize,
            ),
            final(self).sdb == old(self).sdb,
            final(self).call_stack@ == old(self).call_stack@,
            final(self).calls@ == old(self).calls@,
            step_fields_unchanged(*old(step), *final(step)),
    {
        let call = self.call_stack[self.call_stack.len() - 1].call_index;
        let call_id = self.calls[call].call_id;
        self.push_op(step, RW::Write, OpEnum::Global { call_id, index, value });
        Ok(())
    }

    /// Reads one interpreter global variable; the value is trusted from the
    /// trace.
    pub fn global_read(&mut self, step: &mut ExecStep, index: u32, value: u64) -> (r: Result<
        (),
        Error,
    >)
        requires
            old(self).wf(),
            old(self).ops().len() < usize::MAX - 1,
            old(self).call_stack@.len() > 0,
        ensures
            scalar_frame(*old(self), *final(self)),
            final(self).wf(),
            r.is_ok(),
            final(self).ops() == old(self).ops().push(
                Operation {
                    rwc: (old(self).ops().len() + 1) as usize,
                    rw: RW::Read,
                    op: OpEnum::Global {
                        call_id: old(self).spec_call().call_id,
                        index,
                        value,
                    },
                },
            ),
            final(step).bus_mapping_instance@ == old(step).bus_mapping_instance@.push(
                old(self).ops().len() as usize,
            ),
            final(self).sdb == old(self).sdb,
            final(self).call_stack@ == old(self).call_stack@,
            final(self).calls@ == old(self).calls@,
            step_fields_unchanged(*old(step), *final(step)),
    {
        let call = self.call_stack[self.call_stack.len() - 1].call_index;
        let call_id = self.calls[call].call_id;
        self.push_op(step, RW::Read, OpEnum::Global { call_id, index, value });
        Ok(())
    }

    /// Whether the current call's memory snapshot equals the given bytes.
    pub fn call_memory_matches(&self, bytes: &Vec<u8>) -> (r: bool)
        requires
            self.call_stack@.len() > 0,
        ensures
            r == (self.call_stack@.last().memory@ =~= bytes@),
    {
        let idx = self.call_stack.len() - 1;
        let mem = &self.call_stack[idx].memory;
        if mem.len() != bytes.len() {
            return false;
        }
        let n = mem.len();
        for i in 0..n
            invariant
                self.call_stack@.len() > 0,
                idx == self.call_stack@.len() - 1,
                mem == &self.call_stack@.last().memory,
                n == mem@.len(),
                n == bytes@.len(),
                forall|j: int| 0 <= j < i ==> mem@[j] == bytes@[j],
        {
            if mem[i] != bytes[i] {
                return false;
            }
        }
        proof {
            assert(self.call_stack@.last().memory@ =~= bytes@);
        }
        true
    }

    /// Replaces the current call's memory snapshot.
    pub fn set_call_memory(&mut self, mem: Vec<u8>)
        requires
            old(self).wf(),
            old(self).call_stack@.len() > 0,
        ensures
            scalar_frame(*old(self), *final(self)),
            final(self).wf(),
            final(self).sdb == old(self).sdb,
            final(self).ops() == old(self).ops(),
            final(self).calls@ == old(self).calls@,
            final(self).call_stack@.len() == old(self).call_stack@.len(),
            final(self).call_stack@.last().memory@ == mem@,
            final(self).call_stack@.last().call_index == old(self).call_stack@.last().call_index,
            final(self).call_stack@.last().reversible@ == old(self).call_stack@.last().reversible@,
            forall|i: int|
                0 <= i < old(self).call_stack@.len() - 1 ==> #[trigger] final(self).call_stack@[i]
                    == old(self).call_stack@[i],
    {
        let mut ctx = self.call_stack.pop().unwrap();
        ctx.memory = mem;
        self.call_stack.push(ctx);
    }

    /// Reads one field of a call context.
    pub fn call_context_read(
        &mut self,
        step: &mut ExecStep,
        call_id: usize,
        field: CallContextField,
        value: Word,
    )
        requires
            old(self).wf(),
            old(self).ops().len() < usize::MAX - 1,
        ensures
            scalar_frame(*old(self), *final(self)),
            final(self).wf(),
            final(self).ops() == old(self).ops().push(
                Operation {
                    rwc: (old(self).ops().len() + 1) as usize,
                    rw: RW::Read,
                    op: OpEnum::CallContext { call_id, field, value },
                },
            ),
            final(step).bus_mapping_instance@ == old(step).bus_mapping_instance@.push(
                old(self).ops().len() as usize,
            ),
            final(self).sdb == old(self).sdb,
            final(self).call_stack@ == old(self).call_stack@,
            final(self).calls@ == old(self).calls@,
            step_fields_unchanged(*old(step), *final(step)),
    {
        self.push_op(step, RW::Read, OpEnum::CallContext { call_id, field, value });
    }

    /// Writes one field of a call context.
    pub fn call_context_write(
        &mut self,
        step: &mut ExecStep,
        call_id: usize,
        field: CallContextField,
        value: Word,
    )
        requires
            old(self).wf(),
            old(self).ops().len() < usize::MAX - 1,
        ensures
            scalar_frame(*old(self), *final(self)),
            final(self).wf(),
            final(self).ops() == old(self).ops().push(
                Operation {
                    rwc: (old(self).ops().len() + 1) as usize,
                    rw: RW::Write,
                    op: OpEnum::CallContext { call_id, field, value },
                },
            ),
            final(step).bus_mapping_instance@ == old(step).bus_mapping_instance@.push(
                old(self).ops().len() as usize,
            ),
            final(self).sdb == old(self).sdb,
            final(self).call_stack@ == old(self).call_stack@,
            final(self).calls@ == old(self).calls@,
            step_fields_unchanged(*old(step), *final(step)),
    {
        self.push_op(step, RW::Write, OpEnum::CallContext { call_id, field, value });
    }
    /// Validates a database-backed write against the database and applies
    /// it: the claimed previous value must equal the database's current
    /// value for the key, exactly; a mismatch is fatal.
    fn check_apply_op(&mut self, op: &OpEnum) -> (r: Result<(), Error>)
        requires
            old(self).wf(),
            is_reversible(*op),
        ensures
            scalar_frame(*old(self), *final(self)),
            final(self).wf(),
            final(self).container == old(self).container,
            final(self).call_stack@ == old(self).call_stack@,
            final(self).calls@ == old(self).calls@,
            final(self).block.sha3_inputs@ == old(self).block.sha3_inputs@,
            final(self).cumulative_gas_used == old(self).cumulative_gas_used,
            match r {
                Ok(()) => apply_ok(old(self).sdb, *op) && rev_entry_wf(*op) && rev_prev(*op)
                    == old(self).sdb.db_read(rev_key(*op)) && final(self).sdb.db_read(rev_key(*op))
                    == rev_value(*op) && word_frame(old(self).sdb, final(self).sdb, rev_key(*op))
                    && (forall|k: DbKey|
                        k != rev_key(*op) ==> #[trigger] final(self).sdb.db_read(k)
                            == old(self).sdb.db_read(k)) && (forall|b: Address|
                        #[trigger] crate::state_db::lookup(final(self).sdb.accounts@, b).is_some()
                            <==> crate::state_db::lookup(old(self).sdb.accounts@, b).is_some()
                            || is_account_field_key(rev_key(*op), b)),
                Err(e) => e == Error::StateValueMismatch && !apply_ok(old(self).sdb, *op)
                    && final(self).sdb == old(self).sdb,
            },
    {
        match op {
            OpEnum::Account { address, field, value, value_prev } => {
                let cur = self.sdb.get_account(address);
                match field {
                    AccountField::Nonce => {
                        let expected = Word::from_u64(cur.nonce);
                        if *value_prev != expected {
                            return Err(Error::StateValueMismatch);
                        }
                        if value.l1 != 0 || value.l2 != 0 || value.l3 != 0 {
                            return Err(Error::StateValueMismatch);
                        }
                        self.sdb.set_account(*address, Account { nonce: value.l0, ..cur });
                    },
                    AccountField::Balance => {
                        if *value_prev != cur.balance {
                            return Err(Error::StateValueMismatch);
                        }
                        self.sdb.set_account(*address, Account { balance: *value, ..cur });
                    },
                    AccountField::CodeHash => {
                        if *value_prev != cur.code_hash {
                            return Err(Error::StateValueMismatch);
                        }
                        self.sdb.set_account(*address, Account { code_hash: *value, ..cur });
                    },
                }
                proof {
                    assert forall|b: Address|
                        #[trigger] crate::state_db::lookup(self.sdb.accounts@, b).is_some()
                            <==> crate::state_db::lookup(old(self).sdb.accounts@, b).is_some()
                            || is_account_field_key(rev_key(*op), b) by {
                        if b == *address {
                            assert(crate::state_db::lookup(self.sdb.accounts@, b).is_some());
                        } else {
                            assert(crate::state_db::lookup(self.sdb.accounts@, b)
                                == crate::state_db::lookup(old(self).sdb.accounts@, b));
                        }
                    }
                }
                Ok(())
            },
            OpEnum::Storage { address, key, value, value_prev, .. } => {
                let cur = self.sdb.get_storage(address, key);
                if *value_prev != cur {
                    return Err(Error::StateValueMismatch);
                }
                self.sdb.set_storage(*address, *key, *value);
                Ok(())
            },
            OpEnum::TxAccessListAccount { address, is_warm, is_warm_prev, .. } => {
                let cur = self.sdb.check_account_in_access_list(address);
                if *is_warm_prev != cur {
                    return Err(Error::StateValueMismatch);
                }
                self.sdb.set_warm_account(*address, *is_warm);
                Ok(())
            },
            OpEnum::TxAccessListAccountStorage { address, key, is_warm, is_warm_prev, .. } => {
                let cur = self.sdb.check_account_storage_in_access_list(address, key);
                if *is_warm_prev != cur {
                    return Err(Error::StateValueMismatch);
                }
                self.sdb.set_warm_slot(*address, *key, *is_warm);
                Ok(())
            },
            OpEnum::TxRefund { value, value_prev, .. } => {
                if *value_prev != self.sdb.refund {
                    return Err(Error::StateValueMismatch);
                }
                self.sdb.set_refund(*value);
                Ok(())
            },
            _ => Err(Error::StateValueMismatch),
        }
    }

    /// Reads one field of an account: the supplied value must equal the
    /// database's current value exactly, and the database does not move.
    pub fn account_read(
        &mut self,
        step: &mut ExecStep,
        address: Address,
        field: AccountField,
        value: Word,
    ) -> (r: Result<(), Error>)
        requires
            old(self).wf(),
            old(self).ops().len() < usize::MAX - 1,
        ensures
            scalar_frame(*old(self), *final(self)),
            final(self).wf(),
            final(self).sdb == old(self).sdb,
            final(self).call_stack@ == old(self).call_stack@,
            final(self).calls@ == old(self).calls@,
            step_fields_unchanged(*old(step), *final(step)),
            match r {
                Ok(()) => value == spec_account_field(old(self).sdb, address, field)
                    && final(self).ops() == old(self).ops().push(
                    Operation {
                        rwc: (old(self).ops().len() + 1) as usize,
                        rw: RW::Read,
                        op: OpEnum::Account { address, field, value, value_prev: value },
                    },
                ) && final(step).bus_mapping_instance@
                    == old(step).bus_mapping_instance@.push(old(self).ops().len() as usize),
                Err(e) => e == Error::StateValueMismatch && value != spec_account_field(
                    old(self).sdb,
                    address,
                    field,
                ) && final(self).ops() == old(self).ops() && final(step).bus_mapping_instance@
                    == old(step).bus_mapping_instance@,
            },
    {
        let cur = self.read_account_field(&address, field);
        if value != cur {
            return Err(Error::StateValueMismatch);
        }
        self.push_op(step, RW::Read, OpEnum::Account { address, field, value, value_prev: value });
        Ok(())
    }

    /// Writes one field of an account.  The caller supplies the expected
    /// previous value, which must match the database's current value
    /// exactly; the database then moves to the new value at that key only.
    pub fn account_write(
        &mut self,
        step: &mut ExecStep,
        address: Address,
        field: AccountField,
        value: Word,
        value_prev: Word,
    ) -> (r: Result<(), Error>)
        requires
            old(self).wf(),
            old(self).ops().len() < usize::MAX - 1,
        ensures
            scalar_frame(*old(self), *final(self)),
            final(self).wf(),
            final(self).call_stack@ == old(self).call_stack@,
            final(self).calls@ == old(self).calls@,
            step_fields_unchanged(*old(step), *final(step)),
            match r {
                Ok(()) => {
                    let op = OpEnum::Account { address, field, value, value_prev };
                    rev_prev(op) == old(self).sdb.db_read(rev_key(op)) && final(self).sdb.db_read(
                        rev_key(op),
                    ) == rev_value(op) && value_prev == spec_account_field(
                        old(self).sdb,
                        address,
                        field,
                    ) && word_frame(old(self).sdb, final(self).sdb, rev_key(op)) && (forall|
                        b: Address,
                    |
                        #[trigger] crate::state_db::lookup(final(self).sdb.accounts@, b).is_some()
                            <==> crate::state_db::lookup(old(self).sdb.accounts@, b).is_some()
                            || is_account_field_key(rev_key(op), b)) && (forall|
                        k: DbKey,
                    |
                        k != rev_key(op) ==> #[trigger] final(self).sdb.db_read(k)
                            == old(self).sdb.db_read(k)) && final(self).ops() == old(self).ops().push(
                        Operation {
                            rwc: (old(self).ops().len() + 1) as usize,
                            rw: RW::Write,
                            op,
                        },
                    ) && final(step).bus_mapping_instance@
                        == old(step).bus_mapping_instance@.push(old(self).ops().len() as usize)
                },
                Err(e) => e == Error::StateValueMismatch && (value_prev != spec_account_field(
                    old(self).sdb,
                    address,
                    field,
                ) || (field == AccountField::Nonce && value.as_nat() > u64::MAX)) && final(self).sdb == old(self).sdb && final(self).ops() == old(self).ops() && final(step).bus_mapping_instance@ == old(step).bus_mapping_instance@,
            },
    {
        let op = OpEnum::Account { address, field, value, value_prev };
        self.check_apply_op(&op)?;
        self.push_op(step, RW::Write, op);
        Ok(())
    }

    /// Reads one storage slot; the supplied value must match the database.
    pub fn storage_read(
        &mut self,
        step: &mut ExecStep,
        tx_id: usize,
        address: Address,
        key: Word,
        value: Word,
    ) -> (r: Result<(), Error>)
        requires
            old(self).wf(),
            old(self).ops().len() < usize::MAX - 1,
        ensures
            scalar_frame(*old(self), *final(self)),
            final(self).wf(),
            final(self).sdb == old(self).sdb,
            final(self).call_stack@ == old(self).call_stack@,
            final(self).calls@ == old(self).calls@,
            step_fields_unchanged(*old(step), *final(step)),
            match r {
                Ok(()) => value == old(self).sdb.spec_storage_word(address, key) && final(self).ops() == old(self).ops().push(
                    Operation {
                        rwc: (old(self).ops().len() + 1) as usize,
                        rw: RW::Read,
                        op: OpEnum::Storage { tx_id, address, key, value, value_prev: value },
                    },
                ) && final(step).bus_mapping_instance@
                    == old(step).bus_mapping_instance@.push(old(self).ops().len() as usize),
                Err(e) => e == Error::StateValueMismatch && value != old(self).sdb.spec_storage_word(
                    address,
                    key,
                ) && final(self).ops() == old(self).ops() && final(step).bus_mapping_instance@
                    == old(step).bus_mapping_instance@,
            },
    {
        let cur = self.sdb.get_storage(&address, &key);
        if value != cur {
            return Err(Error::StateValueMismatch);
        }
        self.push_op(
            step,
            RW::Read,
            OpEnum::Storage { tx_id, address, key, value, value_prev: value },
        );
        Ok(())
    }

    /// Writes one storage slot, validating the claimed previous value.
    pub fn storage_write(
        &mut self,
        step: &mut ExecStep,
        tx_id: usize,
        address: Address,
        key: Word,
        value: Word,
        value_prev: Word,
    ) -> (r: Result<(), Error>)
        requires
            old(self).wf(),
            old(self).ops().len() < usize::MAX - 1,
        ensures
            scalar_frame(*old(self), *final(self)),
            final(self).wf(),
            final(self).call_stack@ == old(self).call_stack@,
            final(self).calls@ == old(self).calls@,
            step_fields_unchanged(*old(step), *final(step)),
            match r {
                Ok(()) => {
                    let op = OpEnum::Storage { tx_id, address, key, value, value_prev };
                    rev_prev(op) == old(self).sdb.db_read(rev_key(op)) && final(self).sdb.db_read(
                        rev_key(op),
                    ) == rev_value(op) && (forall|k: DbKey|
                        k != rev_key(op) ==> #[trigger] final(self).sdb.db_read(k)
                            == old(self).sdb.db_read(k)) && final(self).ops() == old(self).ops().push(
                        Operation {
                            rwc: (old(self).ops().len() + 1) as usize,
                            rw: RW::Write,
                            op,
                        },
                    ) && final(step).bus_mapping_instance@
                        == old(step).bus_mapping_instance@.push(old(self).ops().len() as usize)
                },
                Err(e) => e == Error::StateValueMismatch && value_prev != old(self).sdb.spec_storage_word(address, key) && final(self).sdb == old(self).sdb && final(self).ops() == old(self).ops() && final(step).bus_mapping_instance@
                    == old(step).bus_mapping_instance@,
            },
    {
        let op = OpEnum::Storage { tx_id, address, key, value, value_prev };
        self.check_apply_op(&op)?;
        self.push_op(step, RW::Write, op);
        Ok(())
    }

    /// Warms (or cools) an address in the transaction's access list,
    /// recording the previous warm flag read from the database.
    pub fn tx_accesslist_account_write(
        &mut self,
        step: &mut ExecStep,
        tx_id: usize,
        address: Address,
        is_warm: bool,
    ) -> (r: Result<(), Error>)
        requires
            old(self).wf(),
            old(self).ops().len() < usize::MAX - 1,
        ensures
            scalar_frame(*old(self), *final(self)),
            final(self).wf(),
            r.is_ok(),
            final(self).call_stack@ == old(self).call_stack@,
            final(self).calls@ == old(self).calls@,
            step_fields_unchanged(*old(step), *final(step)),
            final(self).sdb.spec_warm_account(address) == is_warm,
            word_frame(old(self).sdb, final(self).sdb, DbKey::WarmAccount { address }),
            forall|k: DbKey| k != (DbKey::WarmAccount { address })
                ==> #[trigger] final(self).sdb.db_read(k) == old(self).sdb.db_read(k),
            final(self).ops() == old(self).ops().push(
                Operation {
                    rwc: (old(self).ops().len() + 1) as usize,
                    rw: RW::Write,
                    op: OpEnum::TxAccessListAccount {
                        tx_id,
                        address,
                        is_warm,
                        is_warm_prev: old(self).sdb.spec_warm_account(address),
                    },
                },
            ),
            final(step).bus_mapping_instance@ == old(step).bus_mapping_instance@.push(
                old(self).ops().len() as usize,
            ),
    {
        let is_warm_prev = self.sdb.check_account_in_access_list(&address);
        self.sdb.set_warm_account(address, is_warm);
        self.push_op(
            step,
            RW::Write,
            OpEnum::TxAccessListAccount { tx_id, address, is_warm, is_warm_prev },
        );
        Ok(())
    }

    /// Reads one field of the transaction receipt (receipts have no database
    /// backing; the cumulative gas thread is kept by the orchestrator).
    pub fn tx_receipt_read(
        &mut self,
        step: &mut ExecStep,
        tx_id: usize,
        field: TxReceiptField,
        value: u64,
    )
        requires
            old(self).wf(),
            old(self).ops().len() < usize::MAX - 1,
        ensures
            scalar_frame(*old(self), *final(self)),
            final(self).wf(),
            final(self).sdb == old(self).sdb,
            final(self).call_stack@ == old(self).call_stack@,
            final(self).calls@ == old(self).calls@,
            step_fields_unchanged(*old(step), *final(step)),
            final(self).ops() == old(self).ops().push(
                Operation {
                    rwc: (old(self).ops().len() + 1) as usize,
                    rw: RW::Read,
                    op: OpEnum::TxReceipt { tx_id, field, value },
                },
            ),
            final(step).bus_mapping_instance@ == old(step).bus_mapping_instance@.push(
                old(self).ops().len() as usize,
            ),
    {
        self.push_op(step, RW::Read, OpEnum::TxReceipt { tx_id, field, value });
    }

    /// Writes one field of the transaction receipt.
    pub fn tx_receipt_write(
        &mut self,
        step: &mut ExecStep,
        tx_id: usize,
        field: TxReceiptField,
        value: u64,
    )
        requires
            old(self).wf(),
            old(self).ops().len() < usize::MAX - 1,
        ensures
            scalar_frame(*old(self), *final(self)),
            final(self).wf(),
            final(self).sdb == old(self).sdb,
            final(self).call_stack@ == old(self).call_stack@,
            final(self).calls@ == old(self).calls@,
            step_fields_unchanged(*old(step), *final(step)),
            final(self).ops() == old(self).ops().push(
                Operation {
                    rwc: (old(self).ops().len() + 1) as usize,
                    rw: RW::Write,
                    op: OpEnum::TxReceipt { tx_id, field, value },
                },
            ),
            final(step).bus_mapping_instance@ == old(step).bus_mapping_instance@.push(
                old(self).ops().len() as usize,
            ),
    {
        self.push_op(step, RW::Write, OpEnum::TxReceipt { tx_id, field, value });
    }

    /// Appends a reversible operation: validates and applies it to the
    /// database, logs it, and records it in the current call's reversible
    /// log for potential undoing.
    pub fn push_op_reversible(&mut self, step: &mut ExecStep, op: OpEnum) -> (r: Result<(), Error>)
        requires
            old(self).wf(),
            is_reversible(op),
            old(self).ops().len() < usize::MAX - 1,
            old(self).call_stack@.len() > 0,
        ensures
            scalar_frame(*old(self), *final(self)),
            final(self).wf(),
            final(self).calls@ == old(self).calls@,
            step_fields_unchanged(*old(step), *final(step)),
            match r {
                Ok(()) => rev_entry_wf(op) && apply_ok(old(self).sdb, op) && rev_prev(op) == old(
                    self,
                ).sdb.db_read(rev_key(op)) && final(self).sdb.db_read(rev_key(op)) == rev_value(op)
                    && word_frame(old(self).sdb, final(self).sdb, rev_key(op)) && (forall|k: DbKey|
                        k != rev_key(op) ==> #[trigger] final(self).sdb.db_read(k)
                            == old(self).sdb.db_read(k)) && final(self).ops() == old(self).ops().push(
                    Operation { rwc: (old(self).ops().len() + 1) as usize, rw: RW::Write, op },
                ) && final(step).bus_mapping_instance@
                    == old(step).bus_mapping_instance@.push(old(self).ops().len() as usize)
                    && final(self).call_stack@.len() == old(self).call_stack@.len()
                    && final(self).call_stack@.last().reversible@
                    == old(self).call_stack@.last().reversible@.push(op)
                    && final(self).call_stack@.last().call_index
                    == old(self).call_stack@.last().call_index
                    && final(self).call_stack@.last().memory@
                    == old(self).call_stack@.last().memory@ && (forall|i: int|
                        0 <= i < old(self).call_stack@.len() - 1
                            ==> #[trigger] final(self).call_stack@[i] == old(self).call_stack@[i]),
                Err(e) => e == Error::StateValueMismatch && !apply_ok(old(self).sdb, op)
                    && final(self).sdb == old(self).sdb && final(self).ops() == old(self).ops()
                    && final(self).call_stack@ == old(self).call_stack@ && final(step).bus_mapping_instance@ == old(step).bus_mapping_instance@,
            },
    {
        self.check_apply_op(&op)?;
        self.push_op(step, RW::Write, op);
        let mut ctx = self.call_stack.pop().unwrap();
        ctx.reversible.push(op);
        self.call_stack.push(ctx);
        Ok(())
    }

    /// Pushes a new call frame.  A frame deeper than the protocol's maximum
    /// call depth is never pushed: that attempt must be routed through the
    /// depth error handler instead, which is why the bound is a precondition.
    pub fn push_call(&mut self, call: Call, memory: Vec<u8>)
        requires
            old(self).wf(),
            call.depth <= MAX_CALL_DEPTH,
        ensures
            scalar_frame(*old(self), *final(self)),
            final(self).wf(),
            final(self).calls@ == old(self).calls@.push(call),
            final(self).call_stack@.len() == old(self).call_stack@.len() + 1,
            final(self).call_stack@.last().call_index == old(self).calls@.len(),
            final(self).call_stack@.last().memory@ == memory@,
            final(self).call_stack@.last().reversible@.len() == 0,
            forall|i: int|
                0 <= i < old(self).call_stack@.len() ==> #[trigger] final(self).call_stack@[i]
                    == old(self).call_stack@[i],
            final(self).spec_call() == call,
            final(self).sdb == old(self).sdb,
            final(self).ops() == old(self).ops(),
    {
        let call_index = self.calls.len();
        self.calls.push(call);
        self.call_stack.push(CallContext { call_index, memory, reversible: Vec::new() });
    }

    /// Builds the child frame a failing call or create opcode would have
    /// entered, so that later steps still reference a valid call id.
    pub fn parse_call(&mut self, step: &TraceStep) -> (r: Result<Call, Error>)
        requires
            old(self).wf(),
            old(self).call_stack@.len() > 0,
            old(self).next_call_id < usize::MAX,
            old(self).spec_call().depth < usize::MAX,
        ensures
            final(self).wf(),
            final(self).sdb == old(self).sdb,
            final(self).ops() == old(self).ops(),
            final(self).call_stack@ == old(self).call_stack@,
            final(self).calls@ == old(self).calls@,
            r.is_ok() <==> step.stack@.len() >= 2,
            match r {
                Ok(c) => c.depth == old(self).spec_call().depth + 1 && c.call_id == old(self).next_call_id && c.caller_address == old(self).spec_call().address
                    && c.is_success == false && final(self).next_call_id == old(self).next_call_id
                    + 1,
                Err(e) => e == Error::StackAddressOutOfBound && final(self).next_call_id == old(self).next_call_id,
            },
    {
        let idx = self.call_stack[self.call_stack.len() - 1].call_index;
        let cur = self.calls[idx];
        let callee_word = step.nth_last(1)?;
        let call_id = self.next_call_id;
        self.next_call_id = self.next_call_id + 1;
        Ok(Call {
            call_id,
            caller_id: cur.call_id,
            caller_address: cur.address,
            address: Address::from_stack_word(callee_word),
            value: Word::zero(),
            depth: cur.depth + 1,
            is_static: cur.is_static || step.op == OpcodeId::STATICCALL,
            is_create: step.op.is_create(),
            is_persistent: false,
            is_success: false,
            rw_counter_end_of_reversion: 0,
            code_hash: Word::zero(),
            call_data_offset: 0,
            call_data_length: 0,
        })
    }

    /// Undoes the current call's reversible log: walks it last-to-first,
    /// appending one compensating operation per entry (value and previous
    /// value swapped) and restoring the database key to its previous value.
    /// Afterwards every database key reads as the reversion of the log and
    /// the current frame's reversible log is empty.
    pub fn handle_reversion(&mut self, step: &mut ExecStep)
        requires
            old(self).wf(),
            old(self).call_stack@.len() > 0,
            old(self).ops().len() + old(self).call_stack@.last().reversible@.len() < usize::MAX
                - 1,
        ensures
            scalar_frame(*old(self), *final(self)),
            final(self).wf(),
            forall|k: DbKey| #[trigger] final(self).sdb.db_read(k) == revert_entries(
                db_view(old(self).sdb),
                old(self).call_stack@.last().reversible@,
            )[k],
            final(self).ops().len() == old(self).ops().len()
                + old(self).call_stack@.last().reversible@.len(),
            forall|j: int|
                0 <= j < old(self).ops().len() ==> #[trigger] final(self).ops()[j] == old(self).ops()[j],
            forall|j: int|
                0 <= j < old(self).call_stack@.last().reversible@.len()
                    ==> #[trigger] final(self).ops()[old(self).ops().len() + j] == (Operation {
                    rwc: (old(self).ops().len() + 1 + j) as usize,
                    rw: RW::Write,
                    op: swap_op(
                        old(self).call_stack@.last().reversible@[old(self).call_stack@.last().reversible@.len() - 1 - j],
                    ),
                }),
            final(self).calls@ == old(self).calls@,
            final(self).call_stack@.len() == old(self).call_stack@.len(),
            final(self).call_stack@.last().call_index == old(self).call_stack@.last().call_index,
            final(self).call_stack@.last().reversible@.len() == 0,
            forall|i: int|
                0 <= i < old(self).call_stack@.len() - 1 ==> #[trigger] final(self).call_stack@[i]
                    == old(self).call_stack@[i],
            step_fields_unchanged(*old(step), *final(step)),
            final(step).bus_mapping_instance@.len() == old(step).bus_mapping_instance@.len()
                + old(self).call_stack@.last().reversible@.len(),
            forall|j: int|
                0 <= j < old(step).bus_mapping_instance@.len()
                    ==> #[trigger] final(step).bus_mapping_instance@[j]
                    == old(step).bus_mapping_instance@[j],
            forall|j: int|
                0 <= j < old(self).call_stack@.last().reversible@.len()
                    ==> #[trigger] final(step).bus_mapping_instance@[old(
                    step,
                ).bus_mapping_instance@.len() + j] == old(self).ops().len() + j,
    {
        let ghost dbv0 = db_view(old(self).sdb);
        let ghost ops0 = old(self).ops();
        let mut ctx = self.call_stack.pop().unwrap();
        let ghost rev = ctx.reversible@;
        let n = ctx.reversible.len();
        let mut j: usize = n;
        proof {
            assert(rev.skip(n as int) =~= Seq::<OpEnum>::empty());
            assert forall|k: DbKey| true implies #[trigger] self.sdb.db_read(k) == revert_entries(
                dbv0,
                rev.skip(n as int),
            )[k] by {
                assert(dbv0[k] == self.sdb.db_read(k));
            }
        }
        while j > 0
            invariant
                j <= n,
                n == rev.len(),
                ops0.len() + n < usize::MAX - 1,
                scalar_frame(*old(self), *self),
                ctx.reversible@ == rev,
                rev_log_wf(rev),
                self.wf(),
                self.calls@ == old(self).calls@,
                self.call_stack@ == old(self).call_stack@.drop_last(),
                forall|k: DbKey| #[trigger] self.sdb.db_read(k) == revert_entries(
                    dbv0,
                    rev.skip(j as int),
                )[k],
                self.ops().len() == ops0.len() + (n - j),
                forall|i: int| 0 <= i < ops0.len() ==> #[trigger] self.ops()[i] == ops0[i],
                forall|i: int|
                    0 <= i < n - j ==> #[trigger] self.ops()[ops0.len() + i] == (Operation {
                        rwc: (ops0.len() + 1 + i) as usize,
                        rw: RW::Write,
                        op: swap_op(rev[n - 1 - i]),
                    }),
                step.bus_mapping_instance@.len() == old(step).bus_mapping_instance@.len() + (n
                    - j),
                forall|i: int|
                    0 <= i < old(step).bus_mapping_instance@.len()
                        ==> #[trigger] step.bus_mapping_instance@[i]
                        == old(step).bus_mapping_instance@[i],
                forall|i: int|
                    0 <= i < n - j ==> #[trigger] step.bus_mapping_instance@[old(
                        step,
                    ).bus_mapping_instance@.len() + i] == ops0.len() + i,
                step_fields_unchanged(*old(step), *step),
            decreases j,
        {
            j = j - 1;
            let e = ctx.reversible[j];
            let ghost db_before = self.sdb;
            proof {
                assert(rev_entry_wf(rev[j as int]));
            }
            match e {
                OpEnum::Account { address, field, value, value_prev } => {
                    let cur = self.sdb.get_account(&address);
                    match field {
                        AccountField::Nonce => {
                            proof {
                                assert(value_prev.as_nat() <= u64::MAX);
                                assert(value_prev.l1 == 0 && value_prev.l2 == 0 && value_prev.l3
                                    == 0);
                            }
                            self.sdb.set_account(
                                address,
                                Account { nonce: value_prev.l0, ..cur },
                            );
                        },
                        AccountField::Balance => {
                            self.sdb.set_account(address, Account { balance: value_prev, ..cur });
                        },
                        AccountField::CodeHash => {
                            self.sdb.set_account(
                                address,
                                Account { code_hash: value_prev, ..cur },
                            );
                        },
                    }
                    self.push_op(
                        step,
                        RW::Write,
                        OpEnum::Account { address, field, value: value_prev, value_prev: value },
                    );
                },
                OpEnum::Storage { tx_id, address, key, value, value_prev } => {
                    self.sdb.set_storage(address, key, value_prev);
                    self.push_op(
                        step,
                        RW::Write,
                        OpEnum::Storage {
                            tx_id,
                            address,
                            key,
                            value: value_prev,
                            value_prev: value,
                        },
                    );
                },
                OpEnum::TxAccessListAccount { tx_id, address, is_warm, is_warm_prev } => {
                    self.sdb.set_warm_account(address, is_warm_prev);
                    self.push_op(
                        step,
                        RW::Write,
                        OpEnum::TxAccessListAccount {
                            tx_id,
                            address,
                            is_warm: is_warm_prev,
                            is_warm_prev: is_warm,
                        },
                    );
                },
                OpEnum::TxAccessListAccountStorage { tx_id, address, key, is_warm, is_warm_prev
                } => {
                    self.sdb.set_warm_slot(address, key, is_warm_prev);
                    self.push_op(
                        step,
                        RW::Write,
                        OpEnum::TxAccessListAccountStorage {
                            tx_id,
                            address,
                            key,
                            is_warm: is_warm_prev,
                            is_warm_prev: is_warm,
                        },
                    );
                },
                OpEnum::TxRefund { tx_id, value, value_prev } => {
                    self.sdb.set_refund(value_prev);
                    self.push_op(
                        step,
                        RW::Write,
                        OpEnum::TxRefund { tx_id, value: value_prev, value_prev: value },
                    );
                },
                _ => {
                    proof {
                        assert(false);
                    }
                },
            }
            proof {
                let e_spec = rev[j as int];
                assert(rev.skip(j as int)[0] == e_spec);
                assert(rev.skip(j as int).drop_first() =~= rev.skip(j + 1));
                assert forall|k: DbKey| true implies #[trigger] self.sdb.db_read(k)
                    == revert_entries(dbv0, rev.skip(j as int))[k] by {
                    if k == rev_key(e_spec) {
                        assert(self.sdb.db_read(k) == rev_prev(e_spec));
                    } else {
                        assert(self.sdb.db_read(k) == db_before.db_read(k));
                    }
                }
            }
        }
        proof {
            assert(rev.skip(0) =~= rev);
        }
        ctx.reversible = Vec::new();
        self.call_stack.push(ctx);
    }

    /// Pops the current call frame on opcode-level termination.  A failed
    /// frame first has its reversible log undone, so its state effects are
    /// rolled back while the compensating operations keep the log
    /// append-only.  `need_restore` marks returns that should replay the
    /// parent frame's saved context values as read operations; that restore
    /// sequence lives in sources outside this library's modeled subset, so
    /// the flag is accepted for interface fidelity and no restore reads are
    /// emitted — the contract states only the pop and the reversion.
    pub fn handle_return(&mut self, step: &mut ExecStep, _need_restore: bool) -> (r: Result<
        (),
        Error,
    >)
        requires
            old(self).wf(),
            old(self).ops().len() + old(self).call_stack@.last().reversible@.len() < usize::MAX
                - 1,
        ensures
            scalar_frame(*old(self), *final(self)),
            final(self).wf(),
            match r {
                Ok(()) => old(self).call_stack@.len() > 0 && final(self).call_stack@
                    == old(self).call_stack@.drop_last() && final(self).calls@ == old(self).calls@
                    && (old(self).spec_call().is_success ==> final(self).sdb == old(self).sdb
                    && final(self).ops() == old(self).ops()) && (!old(self).spec_call().is_success
                    ==> forall|k: DbKey| #[trigger] final(self).sdb.db_read(k) == revert_entries(
                    db_view(old(self).sdb),
                    old(self).call_stack@.last().reversible@,
                )[k]),
                Err(e) => e == Error::NoCallContext && old(self).call_stack@.len() == 0,
            },
            final(self).ops().len() >= old(self).ops().len(),
            final(self).ops().len() <= old(self).ops().len() + (if old(self).call_stack@.len() > 0 {
                old(self).call_stack@.last().reversible@.len()
            } else {
                0
            }),
            forall|j: int|
                0 <= j < old(self).ops().len() ==> #[trigger] final(self).ops()[j] == old(
                    self,
                ).ops()[j],
            step_fields_unchanged(*old(step), *final(step)),
            final(step).bus_mapping_instance@.len() == old(step).bus_mapping_instance@.len() + (
            final(self).ops().len() - old(self).ops().len()),
            forall|j: int|
                0 <= j < old(step).bus_mapping_instance@.len()
                    ==> #[trigger] final(step).bus_mapping_instance@[j]
                    == old(step).bus_mapping_instance@[j],
            forall|j: int|
                0 <= j < final(self).ops().len() - old(self).ops().len()
                    ==> #[trigger] final(step).bus_mapping_instance@[old(
                    step,
                ).bus_mapping_instance@.len() + j] == old(self).ops().len() + j,
    {
        if self.call_stack.len() == 0 {
            return Err(Error::NoCallContext);
        }
        let idx = self.call_stack[self.call_stack.len() - 1].call_index;
        let success = self.calls[idx].is_success;
        if !success {
            self.handle_reversion(step);
        }
        let _ = self.call_stack.pop();
        Ok(())
    }

    /// Classifies a known error condition from the raw trace pair; `None`
    /// means the step executed without error.  A gas shortfall is classified
    /// first, as the out-of-gas flavour of the opcode's class; then an
    /// exceeded call depth; then a state write under a static context.
    pub fn get_step_err(&self, step: &TraceStep, _next_step: Option<&TraceStep>) -> (r: Result<
        Option<ExecError>,
        Error,
    >)
        requires
            self.wf(),
            self.call_stack@.len() > 0,
        ensures
            r == Ok::<Option<ExecError>, Error>(spec_classify(self.spec_call(), *step)),
    {
        if step.gas < step.gas_cost {
            return Ok(Some(ExecError::OutOfGas(step.op.oog_class())));
        }
        if step.op.is_call_or_create() && step.depth >= MAX_CALL_DEPTH {
            let kind = match step.op {
                OpcodeId::CREATE => crate::error::DepthError::Create,
                OpcodeId::CREATE2 => crate::error::DepthError::Create2,
                _ => crate::error::DepthError::Call,
            };
            return Ok(Some(ExecError::Depth(kind)));
        }
        let idx = self.call_stack[self.call_stack.len() - 1].call_index;
        if self.calls[idx].is_static && step.op.writes_state() {
            return Ok(Some(ExecError::WriteProtection));
        }
        Ok(None)
    }

    /// Moves `value` from `from` to `to`, first deducting `fee` from the
    /// sender.  The fee deduction is final; the value movement is recorded
    /// reversibly under the current call.  When sender and receiver
    /// coincide, the value movement nets out and only the fee leaves.
    pub fn transfer_with_fee(
        &mut self,
        step: &mut ExecStep,
        from: Address,
        to: Address,
        value: Word,
        fee: Option<Word>,
    ) -> (r: Result<(), Error>)
        requires
            old(self).wf(),
            old(self).ops().len() + 3 < usize::MAX - 1,
            old(self).call_stack@.len() > 0,
        ensures
            scalar_frame(*old(self), *final(self)),
            final(self).wf(),
            final(self).calls@ == old(self).calls@,
            final(self).call_stack@.len() == old(self).call_stack@.len(),
            final(self).call_stack@.last().reversible@.len()
                <= old(self).call_stack@.last().reversible@.len() + 2,
            final(self).call_stack@.last().call_index == old(self).call_stack@.last().call_index,
            step_fields_unchanged(*old(step), *final(step)),
            final(self).ops().len() >= old(self).ops().len(),
            forall|j: int|
                0 <= j < old(self).ops().len() ==> #[trigger] final(self).ops()[j] == old(
                    self,
                ).ops()[j],
            match r {
                Ok(()) => {
                    let fee0 = match fee {
                        Some(f) => f.as_nat() as int,
                        None => 0int,
                    };
                    let bal_from = old(self).sdb.db_read(DbKey::AccountBalance { address: from });
                    let bal_to = old(self).sdb.db_read(DbKey::AccountBalance { address: to });
                    &&& fee0 + value.as_nat() <= bal_from
                    &&& (from != to ==> final(self).sdb.db_read(
                        DbKey::AccountBalance { address: from },
                    ) == bal_from - fee0 - value.as_nat() && final(self).sdb.db_read(
                        DbKey::AccountBalance { address: to },
                    ) == bal_to + value.as_nat())
                    &&& (from == to ==> final(self).sdb.db_read(
                        DbKey::AccountBalance { address: from },
                    ) == bal_from - fee0)
                    &&& (forall|k: DbKey|
                        k != (DbKey::AccountBalance { address: from }) && k != (DbKey::AccountBalance { address: to })
                            ==> #[trigger] final(self).sdb.db_read(k) == old(self).sdb.db_read(k))
                    &&& final(self).ops().len() == old(self).ops().len() + (match fee {
                        Some(_) => 1int,
                        None => 0int,
                    }) + if value.as_nat() == 0 { 0int } else { 2int }
                    &&& (fee matches Some(f) ==> final(self).ops()[old(self).ops().len() as int].rwc
                        == old(self).ops().len() + 1 && final(self).ops()[old(
                        self,
                    ).ops().len() as int].rw == RW::Write && (final(self).ops()[old(
                        self,
                    ).ops().len() as int].op matches OpEnum::Account {
                        address,
                        field: AccountField::Balance,
                        value: v2,
                        value_prev,
                    } && address == from && value_prev.as_nat() == bal_from && v2.as_nat()
                        == bal_from - f.as_nat()))
                    &&& (value.as_nat() > 0 ==> {
                        let b: int = old(self).ops().len() + (match fee {
                            Some(_) => 1int,
                            None => 0int,
                        });
                        let mid_from = bal_from - fee0;
                        &&& final(self).ops()[b].rwc == b + 1
                        &&& final(self).ops()[b].rw == RW::Write
                        &&& (final(self).ops()[b].op matches OpEnum::Account {
                            address,
                            field: AccountField::Balance,
                            value: v2,
                            value_prev,
                        } && address == from && value_prev.as_nat() == mid_from && v2.as_nat()
                            == mid_from - value.as_nat())
                        &&& final(self).ops()[b + 1].rwc == b + 2
                        &&& final(self).ops()[b + 1].rw == RW::Write
                        &&& (final(self).ops()[b + 1].op matches OpEnum::Account {
                            address,
                            field: AccountField::Balance,
                            value: v2,
                            value_prev,
                        } && address == to && value_prev.as_nat() == (if to == from {
                            mid_from - value.as_nat()
                        } else {
                            bal_to
                        }) && v2.as_nat() == (if to == from {
                            mid_from - value.as_nat()
                        } else {
                            bal_to
                        }) + value.as_nat())
                    })
                },
                Err(e) => e == Error::ArithmeticOverflow && final(self).call_stack@.last().reversible@.len()
                    <= old(self).call_stack@.last().reversible@.len() + 1,
            },
            r.is_ok() <==> transfer_ok(old(self).sdb, from, to, value, fee),
    {
        if let Some(f) = fee {
            let prev = self.sdb.get_account(&from).balance;
            let next = match crate::word::word_sub(&prev, &f) {
                Some(w) => w,
                None => { return Err(Error::ArithmeticOverflow); },
            };
            match self.account_write(step, from, AccountField::Balance, next, prev) {
                Ok(()) => (),
                Err(_) => { return Err(Error::ArithmeticOverflow); },
            }
        }
        if value.is_zero() {
            return Ok(());
        }
        let ghost db_after_fee = self.sdb;
        let sender_prev = self.sdb.get_account(&from).balance;
        let sender_next = match crate::word::word_sub(&sender_prev, &value) {
            Some(w) => w,
            None => { return Err(Error::ArithmeticOverflow); },
        };
        match self.push_op_reversible(
            step,
            OpEnum::Account {
                address: from,
                field: AccountField::Balance,
                value: sender_next,
                value_prev: sender_prev,
            },
        ) {
            Ok(()) => (),
            Err(_) => { return Err(Error::ArithmeticOverflow); },
        }
        let receiver_prev = self.sdb.get_account(&to).balance;
        proof {
            let big: int =
                0x1_0000_0000_0000_0000_0000_0000_0000_0000_0000_0000_0000_0000_0000_0000_0000_0000int;
            assert(old(self).sdb.spec_account(from).balance.as_nat() < big);
            if from == to {
                assert(receiver_prev.as_nat() + value.as_nat() < big);
            } else {
                let k_to = DbKey::AccountBalance { address: to };
                assert(db_after_fee.db_read(k_to) == old(self).sdb.db_read(k_to));
                assert(self.sdb.db_read(k_to) == db_after_fee.db_read(k_to));
                assert(receiver_prev.as_nat()
                    == old(self).sdb.spec_account(to).balance.as_nat());
            }
        }
        let receiver_next = match crate::word::word_add(&receiver_prev, &value) {
            Some(w) => w,
            None => { return Err(Error::ArithmeticOverflow); },
        };
        match self.push_op_reversible(
            step,
            OpEnum::Account {
                address: to,
                field: AccountField::Balance,
                value: receiver_next,
                value_prev: receiver_prev,
            },
        ) {
            Ok(()) => (),
            Err(_) => { return Err(Error::ArithmeticOverflow); },
        }
        Ok(())
    }

    /// The database's current word for one account field.
    fn read_account_field(&self, a: &Address, field: AccountField) -> (r: Word)
        ensures
            r == spec_account_field(self.sdb, *a, field),
    {
        let cur = self.sdb.get_account(a);
        match field {
            AccountField::Nonce => Word::from_u64(cur.nonce),
            AccountField::Balance => cur.balance,
            AccountField::CodeHash => cur.code_hash,
        }
    }
}

/// Whether a database-backed write's claimed previous value matches the
/// database, and its new value fits the key's representation: exactly the
/// condition under which applying it succeeds.
pub open spec fn apply_ok(db: StateDB, op: OpEnum) -> bool {
    match op {
        OpEnum::Account { address, field, value, value_prev } => value_prev
            == spec_account_field(db, address, field) && (field == AccountField::Nonce
            ==> value.as_nat() <= u64::MAX),
        OpEnum::Storage { address, key, value_prev, .. } => value_prev == db.spec_storage_word(
            address,
            key,
        ),
        OpEnum::TxAccessListAccount { address, is_warm_prev, .. } => is_warm_prev
            == db.spec_warm_account(address),
        OpEnum::TxAccessListAccountStorage { address, key, is_warm_prev, .. } => is_warm_prev
            == db.spec_warm_slot(address, key),
        OpEnum::TxRefund { value_prev, .. } => value_prev == db.refund,
        _ => false,
    }
}

/// The error classification of one raw trace step, as a function of the
/// step and the call it runs in: a gas shortfall first, as the out-of-gas
/// flavour of the opcode's class; then an exceeded call depth, keyed to the
/// opcode family; then a state write under a static context; else none.
/// Invalid jumps, stack bound violations, balance shortfalls and the other
/// expected failure conditions are not classified here: detecting them
/// needs the call- and create-family handlers' context, which is outside
/// this library's modeled subset, so such a step proceeds as error-free.
pub open spec fn spec_classify(c: Call, step: TraceStep) -> Option<ExecError> {
    if step.gas < step.gas_cost {
        Some(ExecError::OutOfGas(spec_oog_class(step.op)))
    } else if spec_is_call_or_create(step.op) && step.depth + 1 > MAX_CALL_DEPTH {
        Some(ExecError::Depth(
            if step.op == OpcodeId::CREATE {
                crate::error::DepthError::Create
            } else if step.op == OpcodeId::CREATE2 {
                crate::error::DepthError::Create2
            } else {
                crate::error::DepthError::Call
            },
        ))
    } else if c.is_static && spec_writes_state(step.op) {
        Some(ExecError::WriteProtection)
    } else {
        None
    }
}

/// Exactly when the value-and-fee transfer succeeds: the sender covers the
/// fee plus the value, and crediting a distinct receiver does not overflow
/// 256 bits.
pub open spec fn transfer_ok(db: StateDB, from: Address, to: Address, value: Word, fee: Option<Word>) -> bool {
    let fee0 = match fee {
        Some(f) => f.as_nat() as int,
        None => 0int,
    };
    let bal_from = db.spec_account(from).balance.as_nat() as int;
    let bal_to = db.spec_account(to).balance.as_nat() as int;
    &&& fee0 + value.as_nat() <= bal_from
    &&& (from != to && value.as_nat() > 0 ==> bal_to + value.as_nat()
        < 0x1_0000_0000_0000_0000_0000_0000_0000_0000_0000_0000_0000_0000_0000_0000_0000_0000)
}

/// The orchestrator fields that log- and database-level primitives never
/// touch: transaction and block inputs, identifiers, and configuration.
pub open spec fn scalar_frame(a: CircuitInputState, b: CircuitInputState) -> bool {
    &&& b.block.sha3_inputs@ == a.block.sha3_inputs@
    &&& b.tx_id == a.tx_id
    &&& b.next_call_id == a.next_call_id
    &&& b.check_mem_strict == a.check_mem_strict
    &&& b.is_last_tx == a.is_last_tx
    &&& b.cumulative_gas_used == a.cumulative_gas_used
    &&& b.tx == a.tx
    &&& b.block.coinbase == a.block.coinbase
    &&& b.block.base_fee == a.block.base_fee
}

/// The database key of one account field.
pub open spec fn account_field_key(a: Address, f: AccountField) -> DbKey {
    match f {
        AccountField::Nonce => DbKey::AccountNonce { address: a },
        AccountField::Balance => DbKey::AccountBalance { address: a },
        AccountField::CodeHash => DbKey::AccountCodeHash { address: a },
    }
}

/// Whether `k` is a balance, nonce or code-hash key of address `b` (a
/// storage slot of `b` is not: writing a slot does not create the account).
pub open spec fn is_account_field_key(k: DbKey, b: Address) -> bool {
    match k {
        DbKey::AccountNonce { address } => address == b,
        DbKey::AccountBalance { address } => address == b,
        DbKey::AccountCodeHash { address } => address == b,
        _ => false,
    }
}

/// The word-level frame of a database-backed write: every account field and
/// storage slot other than the written key keeps its exact word.
pub open spec fn word_frame(before: StateDB, after: StateDB, written: DbKey) -> bool {
    &&& forall|b: Address, f: AccountField|
        account_field_key(b, f) != written ==> #[trigger] spec_account_field(after, b, f)
            == spec_account_field(before, b, f)
    &&& forall|b: Address, k2: Word|
        (DbKey::StorageSlot { address: b, key: k2 }) != written
            ==> #[trigger] after.spec_storage_word(b, k2) == before.spec_storage_word(b, k2)
}

/// The word the database currently holds for one account field.
pub open spec fn spec_account_field(db: StateDB, a: Address, field: AccountField) -> Word {
    match field {
        AccountField::Nonce => Word {
            l0: db.spec_account(a).nonce,
            l1: 0,
            l2: 0,
            l3: 0,
        },
        AccountField::Balance => db.spec_account(a).balance,
        AccountField::CodeHash => db.spec_account(a).code_hash,
    }
}

/// The call-depth bound: in a well-formed state no call frame, live or
/// retired, sits deeper than the protocol's maximum call depth.  Frames
/// enter the arena only through `push_call`, whose precondition enforces
/// the bound; an attempt to go deeper is classified as a depth error by
/// `get_step_err` and routed to the error dispatch instead.
pub proof fn lemma_call_depth_bounded(state: CircuitInputState)
    requires
        state.wf(),
    ensures
        forall|i: int|
            0 <= i < state.calls@.len() ==> (#[trigger] state.calls@[i]).depth <= MAX_CALL_DEPTH,
{
}

/// The reversible log only holds database-backed writes whose values fit
/// their keys' representations.
pub open spec fn rev_log_wf(s: Seq<OpEnum>) -> bool {
    forall|i: int| 0 <= i < s.len() ==> rev_entry_wf(#[trigger] s[i])
}

/// One reversible entry: a database-backed write whose word values fit the
/// integer width of the key they address.
pub open spec fn rev_entry_wf(op: OpEnum) -> bool {
    &&& is_reversible(op)
    &&& match op {
        OpEnum::Account { field: AccountField::Nonce, value, value_prev, .. } =>
            value.as_nat() <= u64::MAX && value_prev.as_nat() <= u64::MAX,
        _ => true,
    }
}

/// The step fields a log-appending primitive never touches.
pub open spec fn step_fields_unchanged(before: ExecStep, after: ExecStep) -> bool {
    &&& after.exec_state == before.exec_state
    &&& after.pc == before.pc
    &&& after.stack_size == before.stack_size
    &&& after.gas_left == before.gas_left
    &&& after.gas_cost == before.gas_cost
    &&& after.call_index == before.call_index
    &&& after.rwc_start == before.rwc_start
    &&& after.error == before.error
    &&& after.function_index == before.function_index
    &&& after.num_locals == before.num_locals
    &&& after.max_stack_height == before.max_stack_height
    &&& after.log_id == before.log_id
}

} // verus!
