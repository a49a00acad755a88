use bus_mapping::error::{ExecError, OogError};
use bus_mapping::exec_step::{Call, TraceStep};
use bus_mapping::opcode::OpcodeId;
use bus_mapping::opcodes::gen_associated_ops;
use bus_mapping::operation::{AccountField, CallContextField, OpEnum, OperationContainer, RW};
use bus_mapping::state::{BlockData, CircuitInputState, TxData};
use bus_mapping::state_db::{Account, StateDB};
use bus_mapping::word::{Address, Word};

fn addr(n: u64) -> Address {
    Address { hi: 0, mid: 0, lo: n }
}

fn base_state() -> CircuitInputState {
    CircuitInputState {
        sdb: StateDB::new(),
        container: OperationContainer::new(),
        block: BlockData {
            coinbase: addr(9000),
            base_fee: Word::from_u64(1),
            sha3_inputs: Vec::new(),
        },
        tx: TxData {
            nonce: 0,
            gas: 100_000,
            gas_price: Word::from_u64(2),
            value: Word::zero(),
            input: Vec::new(),
            is_create: false,
            caller_address: addr(1),
            callee_address: addr(2),
            l1_fee: Word::zero(),
        },
        tx_id: 1,
        is_last_tx: true,
        cumulative_gas_used: 0,
        calls: Vec::new(),
        call_stack: Vec::new(),
        next_call_id: 2,
        check_mem_strict: true,
    }
}

fn root_call(callee: Address) -> Call {
    Call {
        call_id: 1,
        caller_id: 0,
        caller_address: addr(1),
        address: callee,
        value: Word::zero(),
        depth: 1,
        is_static: false,
        is_create: false,
        is_persistent: true,
        is_success: true,
        rw_counter_end_of_reversion: 0,
        call_data_offset: 0,
        call_data_length: 0,
        code_hash: Word::zero(),
    }
}

fn trace_step(op: OpcodeId, gas: u64, gas_cost: u64, stack: Vec<u64>) -> TraceStep {
    TraceStep {
        op,
        pc: 0,
        gas,
        gas_cost,
        depth: 1,
        stack,
        result_memory: Vec::new(),
        global_memory: Vec::new(),
    }
}

#[test]
fn callvalue_opcode_impl() {
    let res_mem_address: u64 = 0x7f;
    let call_value = Word::zero();
    let value_bytes = call_value.to_be_bytes();

    let mut state = base_state();
    let memory = vec![0u8; 0xc0];
    state.push_call(root_call(addr(2)), memory.clone());

    let mut step0 = trace_step(OpcodeId::CALLVALUE, 100, 2, vec![res_mem_address]);
    step0.global_memory = memory.clone();
    let mut step1 = trace_step(OpcodeId::STOP, 98, 0, vec![]);
    step1.result_memory = value_bytes.clone();
    step1.global_memory = memory.clone();
    let steps = vec![step0, step1];

    let out = gen_associated_ops(&OpcodeId::CALLVALUE, &mut state, &steps).unwrap();
    assert_eq!(out.len(), 1);
    let step = &out[0];
    assert_eq!(step.bus_mapping_instance.len(), 32 + 2);

    let op0 = &state.container.ops[step.bus_mapping_instance[0]];
    assert_eq!(op0.rw, RW::Read);
    assert_eq!(
        op0.op,
        OpEnum::CallContext { call_id: 1, field: CallContextField::Value, value: call_value }
    );

    let op1 = &state.container.ops[step.bus_mapping_instance[1]];
    assert_eq!(op1.rw, RW::Read);
    assert_eq!(op1.op, OpEnum::Stack { call_id: 1, address: 1023, value: res_mem_address });

    for idx in 0..32usize {
        let op = &state.container.ops[step.bus_mapping_instance[2 + idx]];
        assert_eq!(op.rw, RW::Write);
        assert_eq!(
            op.op,
            OpEnum::Memory {
                call_id: 1,
                address: res_mem_address as usize + idx,
                byte: value_bytes[idx],
            }
        );
    }
}

// the call-value scenario with a nonzero value: the thirty-two memory
// writes carry the value's big-endian bytes exactly
#[test]
fn callvalue_nonzero_value() {
    let res_mem_address: u64 = 0x7f;
    let call_value = Word { l0: 0x0123456789abcdef, l1: 0x11, l2: 0, l3: 0 };
    let value_bytes = call_value.to_be_bytes();

    let mut state = base_state();
    let memory = vec![0u8; 0xc0];
    state.push_call(root_call(addr(2)), memory.clone());

    let mut step0 = trace_step(OpcodeId::CALLVALUE, 100, 2, vec![res_mem_address]);
    step0.global_memory = memory.clone();
    let mut step1 = trace_step(OpcodeId::STOP, 98, 0, vec![]);
    step1.result_memory = value_bytes.clone();
    step1.global_memory = memory.clone();
    let steps = vec![step0, step1];

    let out = gen_associated_ops(&OpcodeId::CALLVALUE, &mut state, &steps).unwrap();
    let step = &out[0];
    assert!(step.error.is_none());
    assert_eq!(step.bus_mapping_instance.len(), 34);
    for idx in 0..32usize {
        let op = &state.container.ops[step.bus_mapping_instance[2 + idx]];
        assert_eq!(
            op.op,
            OpEnum::Memory {
                call_id: 1,
                address: res_mem_address as usize + idx,
                byte: value_bytes[idx],
            }
        );
    }
    // the value bytes are not all zero, so some write differs from a blank
    assert!(value_bytes.iter().any(|b| *b != 0));
}

fn stack_to_memory_case(op: OpcodeId, result_bytes: Vec<u8>) -> (CircuitInputState, Vec<usize>) {
    let mut state = base_state();
    let memory = vec![0u8; 0x40];
    state.push_call(root_call(addr(2)), memory.clone());

    let mut step0 = trace_step(op, 100, 2, vec![0]);
    step0.global_memory = memory.clone();
    let mut step1 = trace_step(OpcodeId::STOP, 98, 0, vec![]);
    step1.result_memory = result_bytes;
    step1.global_memory = memory.clone();
    let steps = vec![step0, step1];

    let out = gen_associated_ops(&op, &mut state, &steps).unwrap();
    let bmi = out[0].bus_mapping_instance.clone();
    (state, bmi)
}

#[test]
fn difficulty_opcode_impl() {
    let difficulty = Word::from_u64(0x200000);
    let bytes = difficulty.to_be_bytes();
    let (state, bmi) = stack_to_memory_case(OpcodeId::DIFFICULTY, bytes.clone());
    assert_eq!(bmi.len(), 1 + 32);
    let pop = &state.container.ops[bmi[0]];
    assert_eq!(pop.rw, RW::Read);
    assert_eq!(pop.op, OpEnum::Stack { call_id: 1, address: 1023, value: 0 });
    for i in 0..32usize {
        let op = &state.container.ops[bmi[1 + i]];
        assert_eq!(op.rw, RW::Write);
        assert_eq!(op.op, OpEnum::Memory { call_id: 1, address: i, byte: bytes[i] });
    }
}

#[test]
fn gas_limit_opcode_impl() {
    let gas_limit: u64 = 10_000_000;
    let bytes = gas_limit.to_be_bytes().to_vec();
    let (state, bmi) = stack_to_memory_case(OpcodeId::GASLIMIT, bytes.clone());
    // the result buffer carries the 8 big-endian bytes of the limit
    assert_eq!(bmi.len(), 1 + 8);
    assert_eq!(
        state.container.ops[bmi[0]].op,
        OpEnum::Stack { call_id: 1, address: 1023, value: 0 }
    );
    for i in 0..8usize {
        assert_eq!(
            state.container.ops[bmi[1 + i]].op,
            OpEnum::Memory { call_id: 1, address: i, byte: bytes[i] }
        );
    }
}

#[test]
fn basefee_opcode_impl() {
    let base_fee = Word::from_u64(1_000_000_000);
    let bytes = base_fee.to_be_bytes();
    let (state, bmi) = stack_to_memory_case(OpcodeId::BASEFEE, bytes.clone());
    assert_eq!(bmi.len(), 1 + 32);
    assert_eq!(
        state.container.ops[bmi[0]].op,
        OpEnum::Stack { call_id: 1, address: 1023, value: 0 }
    );
    for i in 0..32usize {
        assert_eq!(
            state.container.ops[bmi[1 + i]].op,
            OpEnum::Memory { call_id: 1, address: i, byte: bytes[i] }
        );
    }
}

// the calldata-size opcode reads the data length from the call context
// and copies its bytes to the popped destination
#[test]
fn calldatasize_reads_context_and_writes_bytes() {
    let mut state = base_state();
    let memory = vec![0u8; 0x40];
    let mut call = root_call(addr(2));
    call.call_data_length = 0x1234;
    state.push_call(call, memory.clone());

    let mut step0 = trace_step(OpcodeId::CALLDATASIZE, 100, 2, vec![8]);
    step0.global_memory = memory.clone();
    let mut step1 = trace_step(OpcodeId::STOP, 98, 0, vec![]);
    step1.result_memory = vec![0x00, 0x00, 0x12, 0x34];
    step1.global_memory = memory.clone();
    let steps = vec![step0, step1];

    let out = gen_associated_ops(&OpcodeId::CALLDATASIZE, &mut state, &steps).unwrap();
    let bmi = &out[0].bus_mapping_instance;
    assert_eq!(bmi.len(), 2 + 4);
    assert_eq!(
        state.container.ops[bmi[0]].op,
        OpEnum::CallContext {
            call_id: 1,
            field: CallContextField::CallDataLength,
            value: Word::from_u64(0x1234),
        }
    );
    assert_eq!(state.container.ops[bmi[0]].rw, RW::Read);
    assert_eq!(state.container.ops[bmi[1]].op, OpEnum::Stack { call_id: 1, address: 1023, value: 8 });
    let expected = [0x00u8, 0x00, 0x12, 0x34];
    for i in 0..4usize {
        assert_eq!(
            state.container.ops[bmi[2 + i]].op,
            OpEnum::Memory { call_id: 1, address: 8 + i, byte: expected[i] }
        );
    }
}

// the code-size opcode is stack-to-memory shaped: the popped destination
// receives the size bytes observed in the result buffer
#[test]
fn codesize_writes_result_bytes() {
    let mut state = base_state();
    let memory = vec![0u8; 0x40];
    state.push_call(root_call(addr(2)), memory.clone());

    let mut step0 = trace_step(OpcodeId::CODESIZE, 100, 2, vec![4]);
    step0.global_memory = memory.clone();
    let mut step1 = trace_step(OpcodeId::STOP, 98, 0, vec![]);
    step1.result_memory = vec![0x00, 0x00, 0x00, 0x60];
    step1.global_memory = memory.clone();
    let steps = vec![step0, step1];

    let out = gen_associated_ops(&OpcodeId::CODESIZE, &mut state, &steps).unwrap();
    let bmi = &out[0].bus_mapping_instance;
    assert_eq!(bmi.len(), 1 + 4);
    assert_eq!(state.container.ops[bmi[0]].op, OpEnum::Stack { call_id: 1, address: 1023, value: 4 });
    assert_eq!(
        state.container.ops[bmi[4]].op,
        OpEnum::Memory { call_id: 1, address: 4 + 3, byte: 0x60 }
    );
}

fn oog_storage_case(
    op: OpcodeId,
    db_setup: impl FnOnce(&mut StateDB, Address, Word),
) -> (CircuitInputState, Vec<usize>, Option<ExecError>) {
    let callee = addr(2);
    let mut state = base_state();
    // the key bytes live in memory at the key offset
    let mut memory = vec![0u8; 0x80];
    memory[0x20 + 31] = 5;  // key = 5 at key offset 0x20
    memory[0x40 + 31] = 9;  // value = 9 at value offset 0x40
    db_setup(&mut state.sdb, callee, Word::from_u64(5));
    state.push_call(root_call(callee), memory.clone());

    // stack: [key_offset, value_offset], value offset on top
    let mut step0 = trace_step(op, 100, 2100, vec![0x20, 0x40]);
    step0.global_memory = memory.clone();
    step0.result_memory = vec![0u8; 1];
    let steps = vec![step0];

    let out = gen_associated_ops(&op, &mut state, &steps).unwrap();
    let bmi = out[0].bus_mapping_instance.clone();
    let err = out[0].error;
    (state, bmi, err)
}

fn assert_oog_storage_prefix(state: &CircuitInputState, bmi: &[usize], err: Option<ExecError>) {
    assert_eq!(err, Some(ExecError::OutOfGas(OogError::SloadSstore)));
    // the dispatcher routed to the storage-shaped handler: its fixed
    // call-context prologue confirms the transaction id and is_static=false
    assert_eq!(
        state.container.ops[bmi[0]].op,
        OpEnum::CallContext { call_id: 1, field: CallContextField::TxId, value: Word::from_u64(1) }
    );
    assert_eq!(state.container.ops[bmi[0]].rw, RW::Read);
    assert_eq!(
        state.container.ops[bmi[1]].op,
        OpEnum::CallContext {
            call_id: 1,
            field: CallContextField::IsStatic,
            value: Word::zero(),
        }
    );
    assert_eq!(
        state.container.ops[bmi[2]].op,
        OpEnum::CallContext {
            call_id: 1,
            field: CallContextField::CalleeAddress,
            value: addr(2).to_word(),
        }
    );
    // value offset then key offset popped
    assert_eq!(state.container.ops[bmi[3]].op, OpEnum::Stack { call_id: 1, address: 1022, value: 0x40 });
    assert_eq!(state.container.ops[bmi[4]].op, OpEnum::Stack { call_id: 1, address: 1023, value: 0x20 });
}

#[test]
fn test_oog_sload() {
    let (state, bmi, err) = oog_storage_case(OpcodeId::SLOAD, |_, _, _| {});
    assert_oog_storage_prefix(&state, &bmi, err);
    // 3 context reads, 2 stack reads, 64 memory reads, 1 warm read; the
    // loading variant reads no storage slot
    assert_eq!(bmi.len(), 3 + 2 + 64 + 1);
    assert!(matches!(
        state.container.ops[bmi[69]].op,
        OpEnum::TxAccessListAccountStorage { .. }
    ));
}

fn assert_oog_sstore(setup: impl FnOnce(&mut StateDB, Address, Word), expect_value: Word) {
    let (state, bmi, err) = oog_storage_case(OpcodeId::SSTORE, setup);
    assert_oog_storage_prefix(&state, &bmi, err);
    // the storing variant additionally reads the slot's current value
    assert_eq!(bmi.len(), 3 + 2 + 64 + 1 + 1);
    let last = &state.container.ops[bmi[70]];
    assert_eq!(last.rw, RW::Read);
    match last.op {
        OpEnum::Storage { value, value_prev, .. } => {
            assert_eq!(value, expect_value);
            assert_eq!(value_prev, expect_value);
        }
        _ => panic!("expected a storage read"),
    }
}

#[test]
fn test_oog_sstore_no_refund() {
    // a warm slot already holding the written value
    assert_oog_sstore(
        |db, callee, key| {
            db.set_storage(callee, key, Word::from_u64(9));
            db.add_account_storage_to_access_list(callee, key);
        },
        Word::from_u64(9),
    );
}

#[test]
fn test_oog_sstore_delete_slot() {
    assert_oog_sstore(
        |db, callee, key| {
            db.set_storage(callee, key, Word::from_u64(7));
        },
        Word::from_u64(7),
    );
}

#[test]
fn test_oog_sstore_reset_existing() {
    assert_oog_sstore(
        |db, callee, key| {
            db.set_storage(callee, key, Word::from_u64(1));
            db.add_account_storage_to_access_list(callee, key);
        },
        Word::from_u64(1),
    );
}

#[test]
fn test_oog_sstore_reset_inexistent() {
    assert_oog_sstore(|_, _, _| {}, Word::zero());
}

#[test]
fn test_oog_sstore_recreate_slot() {
    assert_oog_sstore(
        |db, callee, key| {
            db.set_storage(callee, key, Word::from_u64(3));
            db.set_storage(callee, key, Word::zero());
        },
        Word::zero(),
    );
}

#[test]
fn test_oog_sstore_recreate_slot_and_reset_inexistent() {
    assert_oog_sstore(
        |db, callee, key| {
            db.set_storage(callee, key, Word::zero());
        },
        Word::zero(),
    );
}

// the self-destruction scenario where sender and receiver coincide:
// exactly three reversible account operations (balance, nonce and code
// hash zeroed) and no receiver credit
#[test]
fn selfdestruct_to_self_emits_three_account_ops() {
    let sender = addr(2);
    let mut state = base_state();
    state.sdb.set_account(
        sender,
        Account { nonce: 3, balance: Word::from_u64(500), code_hash: Word::from_u64(77) },
    );
    state.push_call(root_call(sender), Vec::new());

    let step0 = trace_step(OpcodeId::SELFDESTRUCT, 100_000, 5000, vec![sender.lo]);
    let steps = vec![step0];

    let out = gen_associated_ops(&OpcodeId::SELFDESTRUCT, &mut state, &steps).unwrap();
    assert!(out[0].error.is_none());
    let ops = &state.container.ops;
    assert_eq!(ops.len(), 4);
    assert!(matches!(ops[0].op, OpEnum::TxAccessListAccount { .. }));
    assert_eq!(
        ops[1].op,
        OpEnum::Account {
            address: sender,
            field: AccountField::Balance,
            value: Word::zero(),
            value_prev: Word::from_u64(500),
        }
    );
    assert_eq!(
        ops[2].op,
        OpEnum::Account {
            address: sender,
            field: AccountField::Nonce,
            value: Word::zero(),
            value_prev: Word::from_u64(3),
        }
    );
    assert_eq!(
        ops[3].op,
        OpEnum::Account {
            address: sender,
            field: AccountField::CodeHash,
            value: Word::zero(),
            value_prev: Word::from_u64(77),
        }
    );
    // persistent call: the account is destructed
    assert_eq!(state.sdb.get_account(&sender), Account {
        nonce: 0,
        balance: Word::zero(),
        code_hash: Word::zero(),
    });
}

#[test]
fn selfdestruct_to_other_credits_receiver() {
    let sender = addr(2);
    let receiver = addr(5);
    let mut state = base_state();
    state.sdb.set_account(
        sender,
        Account { nonce: 1, balance: Word::from_u64(500), code_hash: Word::from_u64(77) },
    );
    state.sdb.set_account(
        receiver,
        Account { nonce: 0, balance: Word::from_u64(40), code_hash: Word::zero() },
    );
    state.push_call(root_call(sender), Vec::new());

    let step0 = trace_step(OpcodeId::SELFDESTRUCT, 100_000, 5000, vec![receiver.lo]);
    let steps = vec![step0];

    gen_associated_ops(&OpcodeId::SELFDESTRUCT, &mut state, &steps).unwrap();
    let ops = &state.container.ops;
    assert_eq!(ops.len(), 5);
    assert_eq!(
        ops[4].op,
        OpEnum::Account {
            address: receiver,
            field: AccountField::Balance,
            value: Word::from_u64(540),
            value_prev: Word::from_u64(40),
        }
    );
    assert_eq!(state.sdb.get_account(&receiver).balance, Word::from_u64(540));
}

// a call one frame below the protocol limit is classified as a depth
// error instead of pushing a frame deeper than the bound
#[test]
fn call_beyond_depth_limit_is_classified() {
    let mut state = base_state();
    let mut call = root_call(addr(2));
    call.depth = 1024;
    state.push_call(call, Vec::new());

    let mut step0 = trace_step(OpcodeId::CALL, 100_000, 100, vec![0, 2, 0, 0, 0, 0, 0]);
    step0.depth = 1024;
    let steps = vec![step0];
    let calls_before = state.calls.len();

    let out = gen_associated_ops(&OpcodeId::CALL, &mut state, &steps).unwrap();
    assert!(matches!(out[0].error, Some(ExecError::Depth(_))));
    // no frame deeper than the limit was pushed
    assert_eq!(state.calls.len(), calls_before);
    for c in &state.calls {
        assert!(c.depth <= 1024);
    }
}

// a failing call within the depth bound still records its child frame in
// the arena: the operands are read top-down, the child gets the next call
// id one level deeper, and the caller stays the live frame
#[test]
fn failing_call_records_child_frame() {
    let mut state = base_state();
    state.push_call(root_call(addr(2)), Vec::new());
    let steps = vec![trace_step(OpcodeId::CALL, 100_000, 100, vec![0, 0, 0, 0, 0, 7, 0])];
    let calls_before = state.calls.len();
    let next_id = state.next_call_id;

    let out =
        bus_mapping::opcodes::call_family_error_gen_ops(&mut state, &steps, 7).unwrap();
    assert_eq!(out.len(), 1);
    assert!(out[0].error.is_none());

    // seven stack reads of the family's operands, top-down from address 1017
    let ops = &state.container.ops;
    assert!(ops.len() >= 7);
    for i in 0..7 {
        assert_eq!(ops[i].rw, RW::Read);
        let expect = OpEnum::Stack {
            call_id: 1,
            address: 1017 + i,
            value: steps[0].stack[6 - i],
        };
        assert_eq!(ops[i].op, expect);
    }

    // the failed child frame is in the arena, one level deeper
    assert_eq!(state.calls.len(), calls_before + 1);
    let child = state.calls.last().unwrap();
    assert_eq!(child.call_id, next_id);
    assert_eq!(child.depth, 2);
    assert_eq!(child.caller_address, addr(2));

    // the caller is still the only live frame
    assert_eq!(state.call_stack.len(), 1);
}

// a gas shortfall is always classified as the opcode's out-of-gas flavour,
// and a step with sufficient gas carries no error
#[test]
fn gas_shortfall_classification() {
    let mut state = base_state();
    state.push_call(root_call(addr(2)), Vec::new());
    let steps = vec![trace_step(OpcodeId::I32Add, 1, 3, vec![4, 5])];
    let out = gen_associated_ops(&OpcodeId::I32Add, &mut state, &steps).unwrap();
    assert_eq!(out[0].error, Some(ExecError::OutOfGas(OogError::Constant)));

    let mut state2 = base_state();
    state2.push_call(root_call(addr(2)), Vec::new());
    let step0 = trace_step(OpcodeId::I32Add, 10, 3, vec![4, 5]);
    let mut step1 = trace_step(OpcodeId::STOP, 7, 0, vec![9]);
    step1.result_memory = Vec::new();
    let steps2 = vec![step0, step1];
    let out2 = gen_associated_ops(&OpcodeId::I32Add, &mut state2, &steps2).unwrap();
    assert!(out2[0].error.is_none());
    // two pops top-down, then the pushed result from the next step
    let ops = &state2.container.ops;
    assert_eq!(ops.len(), 3);
    assert_eq!(ops[0].op, OpEnum::Stack { call_id: 1, address: 1022, value: 5 });
    assert_eq!(ops[1].op, OpEnum::Stack { call_id: 1, address: 1023, value: 4 });
    assert_eq!(ops[2].rw, RW::Write);
    assert_eq!(ops[2].op, OpEnum::Stack { call_id: 1, address: 1023, value: 9 });
}

// a divergence between the state's memory image and the trace's is fatal
// under strict checking and fixed up under lenient checking
#[test]
fn memory_divergence_strict_and_lenient() {
    let value_bytes = Word::zero().to_be_bytes();

    let mut strict = base_state();
    strict.push_call(root_call(addr(2)), vec![1, 2, 3]);
    let mut step0 = trace_step(OpcodeId::CALLVALUE, 100, 2, vec![0x7f]);
    step0.global_memory = vec![0u8; 0xc0];
    let mut step1 = trace_step(OpcodeId::STOP, 98, 0, vec![]);
    step1.result_memory = value_bytes.clone();
    step1.global_memory = vec![0u8; 0xc0];
    let steps = vec![step0.clone(), step1.clone()];
    assert!(gen_associated_ops(&OpcodeId::CALLVALUE, &mut strict, &steps).is_err());

    let mut lenient = base_state();
    lenient.check_mem_strict = false;
    lenient.push_call(root_call(addr(2)), vec![1, 2, 3]);
    let out = gen_associated_ops(&OpcodeId::CALLVALUE, &mut lenient, &steps).unwrap();
    assert!(out[0].error.is_none());
    assert_eq!(out[0].bus_mapping_instance.len(), 34);
}

// a state write under a static context is classified as write protection
#[test]
fn static_write_is_classified() {
    let mut state = base_state();
    let mut call = root_call(addr(2));
    call.is_static = true;
    state.push_call(call, Vec::new());
    let steps = vec![trace_step(OpcodeId::SSTORE, 100_000, 2100, vec![0x20, 0x40])];
    let out = gen_associated_ops(&OpcodeId::SSTORE, &mut state, &steps).unwrap();
    assert_eq!(out[0].error, Some(ExecError::WriteProtection));
}
