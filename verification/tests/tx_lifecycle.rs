use bus_mapping::exec_step::{Call, ExecState, FunctionCall, Trace};
use bus_mapping::operation::{AccountField, CallContextField, OpEnum, OperationContainer, RW, TxReceiptField};
use bus_mapping::state::{BlockData, CircuitInputState, TxData};
use bus_mapping::state_db::{Account, StateDB};
use bus_mapping::tx::{gen_begin_tx_ops, gen_end_tx_ops};
use bus_mapping::word::{Address, Word};

fn addr(n: u64) -> Address {
    Address { hi: 0, mid: 0, lo: n }
}

fn base_state(caller: Address, callee: Address, is_create: bool) -> CircuitInputState {
    CircuitInputState {
        sdb: StateDB::new(),
        container: OperationContainer::new(),
        block: BlockData {
            coinbase: addr(9000),
            base_fee: Word::from_u64(1),
            sha3_inputs: Vec::new(),
        },
        tx: TxData {
            nonce: 0,
            gas: 100_000,
            gas_price: Word::from_u64(2),
            value: Word::zero(),
            input: Vec::new(),
            is_create,
            caller_address: caller,
            callee_address: callee,
            l1_fee: Word::zero(),
        },
        tx_id: 1,
        is_last_tx: true,
        cumulative_gas_used: 0,
        calls: Vec::new(),
        call_stack: Vec::new(),
        next_call_id: 2,
        check_mem_strict: true,
    }
}

fn root_call(caller: Address, callee: Address, is_create: bool) -> Call {
    Call {
        call_id: 1,
        caller_id: 0,
        caller_address: caller,
        address: callee,
        value: Word::zero(),
        depth: 1,
        is_static: false,
        is_create,
        is_persistent: true,
        is_success: true,
        rw_counter_end_of_reversion: 0,
        call_data_offset: 0,
        call_data_length: 0,
        code_hash: Word::zero(),
    }
}

fn empty_trace() -> Trace {
    Trace {
        steps: Vec::new(),
        gas: 21_000,
        global_memory: Vec::new(),
        globals: Vec::new(),
        function_calls: vec![FunctionCall { fn_index: 0, num_locals: 0, max_stack_height: 0 }],
    }
}

#[test]
fn begin_tx_prologue_order_and_effects() {
    let caller = addr(1);
    let callee = addr(0x2000);
    let mut state = base_state(caller, callee, false);
    state.sdb.set_account(
        caller,
        Account { nonce: 0, balance: Word::from_u64(1_000_000), code_hash: Word::zero() },
    );
    state.push_call(root_call(caller, callee, false), Vec::new());

    let trace = empty_trace();
    let step = gen_begin_tx_ops(&mut state, &trace).unwrap();
    assert_eq!(step.exec_state, ExecState::BeginTx);

    let ops = &state.container.ops;
    // the four context-establishing writes, in fixed order
    assert_eq!(
        ops[0].op,
        OpEnum::CallContext { call_id: 1, field: CallContextField::TxId, value: Word::from_u64(1) }
    );
    assert_eq!(ops[0].rw, RW::Write);
    assert_eq!(
        ops[1].op,
        OpEnum::CallContext {
            call_id: 1,
            field: CallContextField::RwCounterEndOfReversion,
            value: Word::zero(),
        }
    );
    assert_eq!(
        ops[2].op,
        OpEnum::CallContext {
            call_id: 1,
            field: CallContextField::IsPersistent,
            value: Word::one(),
        }
    );
    assert_eq!(
        ops[3].op,
        OpEnum::CallContext { call_id: 1, field: CallContextField::IsSuccess, value: Word::one() }
    );
    // the caller's nonce increment
    assert_eq!(
        ops[4].op,
        OpEnum::Account {
            address: caller,
            field: AccountField::Nonce,
            value: Word::from_u64(1),
            value_prev: Word::zero(),
        }
    );
    assert_eq!(state.sdb.get_account(&caller).nonce, 1);
    // caller and callee warmed
    assert_eq!(
        ops[5].op,
        OpEnum::TxAccessListAccount { tx_id: 1, address: caller, is_warm: true, is_warm_prev: false }
    );
    assert_eq!(
        ops[6].op,
        OpEnum::TxAccessListAccount { tx_id: 1, address: callee, is_warm: true, is_warm_prev: false }
    );
    assert!(state.sdb.check_account_in_access_list(&caller));
    assert!(state.sdb.check_account_in_access_list(&callee));
    // the empty callee's code hash is read as zero
    assert_eq!(
        ops[7].op,
        OpEnum::Account {
            address: callee,
            field: AccountField::CodeHash,
            value: Word::zero(),
            value_prev: Word::zero(),
        }
    );
    assert_eq!(ops[7].rw, RW::Read);
    // the up-front fee leaves the caller: fee = gas_price * gas = 200_000
    assert_eq!(
        ops[8].op,
        OpEnum::Account {
            address: caller,
            field: AccountField::Balance,
            value: Word::from_u64(800_000),
            value_prev: Word::from_u64(1_000_000),
        }
    );
    assert_eq!(state.sdb.get_account(&caller).balance, Word::from_u64(800_000));
    assert_eq!(ops.len(), 9);
    // the prologue's gas cost comes from the trace when no step follows
    assert_eq!(step.gas_cost, 21_000);
}

// a nonce ahead of the database is reached by sequential increments,
// never by a decrease
#[test]
fn begin_tx_nonce_is_reached_by_increments() {
    let caller = addr(1);
    let mut state = base_state(caller, addr(0x2000), false);
    state.sdb.set_account(
        caller,
        Account { nonce: 0, balance: Word::from_u64(1_000_000), code_hash: Word::zero() },
    );
    state.tx.nonce = 3;
    state.push_call(root_call(caller, addr(0x2000), false), Vec::new());
    gen_begin_tx_ops(&mut state, &empty_trace()).unwrap();
    assert_eq!(state.sdb.get_account(&caller).nonce, 4);

    // a database nonce beyond the transaction's is fatal
    let mut state2 = base_state(caller, addr(0x2000), false);
    state2.sdb.set_account(
        caller,
        Account { nonce: 9, balance: Word::from_u64(1_000_000), code_hash: Word::zero() },
    );
    state2.push_call(root_call(caller, addr(0x2000), false), Vec::new());
    assert!(gen_begin_tx_ops(&mut state2, &empty_trace()).is_err());
}

// the creation branch registers the address-derivation preimage and
// derives the created address; checked against the canonical example
// creator and its nonce-zero contract address
#[test]
fn begin_tx_create_derives_contract_address() {
    let caller = Address { hi: 0x6ac7ea33, mid: 0xf8831ea9dcc53393, lo: 0xaaa88b25a785dbf0 };
    let created = Address { hi: 0xcd234a47, mid: 0x1b72ba2f1ccf0a70, lo: 0xfcaba648a5eecd8d };
    let callee = created;
    let mut state = base_state(caller, callee, true);
    state.sdb.set_account(
        caller,
        Account { nonce: 0, balance: Word::from_u64(1_000_000), code_hash: Word::zero() },
    );
    let mut call = root_call(caller, callee, true);
    call.code_hash = Word::from_u64(0x1234);
    state.push_call(call, Vec::new());

    gen_begin_tx_ops(&mut state, &empty_trace()).unwrap();

    // the registered preimage is the RLP list of the creator and nonce
    assert_eq!(state.block.sha3_inputs.len(), 1);
    let mut expected = vec![0xd6u8, 0x94];
    expected.extend_from_slice(&caller.hi.to_be_bytes());
    expected.extend_from_slice(&caller.mid.to_be_bytes());
    expected.extend_from_slice(&caller.lo.to_be_bytes());
    expected.push(0x80);
    assert_eq!(state.block.sha3_inputs[0], expected);

    // the callee frame's address is the derived contract address
    let found = state.container.ops.iter().any(|o| {
        o.op == OpEnum::CallContext {
            call_id: 1,
            field: CallContextField::CalleeAddress,
            value: created.to_word(),
        }
    });
    assert!(found);
    // and the created account's nonce was set reversibly to one
    let nonce_op = state.container.ops.iter().any(|o| {
        o.op == OpEnum::Account {
            address: callee,
            field: AccountField::Nonce,
            value: Word::one(),
            value_prev: Word::zero(),
        }
    });
    assert!(nonce_op);
}

// locals of the entry function are zeroed onto the reserved stack slots
#[test]
fn test_wasm_locals_encoding() {
    let caller = addr(1);
    let mut state = base_state(caller, addr(0x2000), false);
    state.sdb.set_account(
        caller,
        Account { nonce: 0, balance: Word::from_u64(1_000_000), code_hash: Word::zero() },
    );
    state.push_call(root_call(caller, addr(0x2000), false), Vec::new());

    let mut trace = empty_trace();
    trace.function_calls = vec![FunctionCall { fn_index: 4, num_locals: 3, max_stack_height: 8 }];
    trace.steps = vec![bus_mapping::exec_step::TraceStep {
        op: bus_mapping::opcode::OpcodeId::I32Const,
        pc: 0,
        gas: 79_000,
        gas_cost: 1,
        depth: 1,
        stack: vec![0, 0, 0],
        result_memory: Vec::new(),
        global_memory: Vec::new(),
    }];

    let step = gen_begin_tx_ops(&mut state, &trace).unwrap();
    assert_eq!(step.function_index, 4);
    assert_eq!(step.num_locals, 3);
    assert_eq!(step.max_stack_height, 8);
    assert_eq!(step.stack_size, 3);
    let ops = &state.container.ops;
    let n = ops.len();
    // the last three operations zero the three local slots, deepest slot
    // first, ending at the stack top
    assert_eq!(ops[n - 3].op, OpEnum::Stack { call_id: 1, address: 1023, value: 0 });
    assert_eq!(ops[n - 2].op, OpEnum::Stack { call_id: 1, address: 1022, value: 0 });
    assert_eq!(ops[n - 1].op, OpEnum::Stack { call_id: 1, address: 1021, value: 0 });
    assert_eq!(ops[n - 1].rw, RW::Write);
}

#[test]
fn end_tx_epilogue_order_and_effects() {
    let caller = addr(1);
    let coinbase = addr(9000);
    let mut state = base_state(caller, addr(2), false);
    state.sdb.set_account(
        caller,
        Account { nonce: 1, balance: Word::from_u64(800_000), code_hash: Word::zero() },
    );
    state.sdb.set_account(
        coinbase,
        Account { nonce: 0, balance: Word::from_u64(7), code_hash: Word::zero() },
    );
    state.calls.push(root_call(caller, addr(2), false));

    // 100_000 gas, 40_000 left: 60_000 used, no refund accumulated
    let step = gen_end_tx_ops(&mut state, 40_000).unwrap();
    assert_eq!(step.exec_state, ExecState::EndTx);

    let ops = &state.container.ops;
    assert_eq!(
        ops[0].op,
        OpEnum::CallContext { call_id: 1, field: CallContextField::TxId, value: Word::from_u64(1) }
    );
    assert_eq!(ops[0].rw, RW::Read);
    assert_eq!(
        ops[1].op,
        OpEnum::CallContext {
            call_id: 1,
            field: CallContextField::IsPersistent,
            value: Word::one(),
        }
    );
    assert_eq!(ops[2].op, OpEnum::TxRefund { tx_id: 1, value: 0, value_prev: 0 });
    assert_eq!(ops[2].rw, RW::Read);
    // unused gas returned: 40_000 * 2 = 80_000
    assert_eq!(
        ops[3].op,
        OpEnum::Account {
            address: caller,
            field: AccountField::Balance,
            value: Word::from_u64(880_000),
            value_prev: Word::from_u64(800_000),
        }
    );
    // coinbase reward: (2 - 1) * 60_000 = 60_000
    assert_eq!(
        ops[4].op,
        OpEnum::Account {
            address: coinbase,
            field: AccountField::Balance,
            value: Word::from_u64(60_007),
            value_prev: Word::from_u64(7),
        }
    );
    // receipt fields: status, log length, cumulative gas
    assert_eq!(
        ops[5].op,
        OpEnum::TxReceipt { tx_id: 1, field: TxReceiptField::PostStateOrStatus, value: 1 }
    );
    assert_eq!(
        ops[6].op,
        OpEnum::TxReceipt { tx_id: 1, field: TxReceiptField::LogLength, value: 0 }
    );
    assert_eq!(
        ops[7].op,
        OpEnum::TxReceipt { tx_id: 1, field: TxReceiptField::CumulativeGasUsed, value: 60_000 }
    );
    assert_eq!(state.cumulative_gas_used, 60_000);
    assert_eq!(ops.len(), 8);
}

// a later transaction reads the previous cumulative gas and pre-writes
// the next transaction's id when it is not the last
#[test]
fn end_tx_threads_cumulative_gas_and_next_tx() {
    let caller = addr(1);
    let coinbase = addr(9000);
    let mut state = base_state(caller, addr(2), false);
    state.tx_id = 2;
    state.is_last_tx = false;
    state.cumulative_gas_used = 60_000;
    state.sdb.set_account(
        caller,
        Account { nonce: 2, balance: Word::from_u64(800_000), code_hash: Word::zero() },
    );
    state.sdb.set_account(
        coinbase,
        Account { nonce: 0, balance: Word::zero(), code_hash: Word::zero() },
    );
    state.calls.push(root_call(caller, addr(2), false));

    gen_end_tx_ops(&mut state, 90_000).unwrap();
    let ops = &state.container.ops;
    // the prior cumulative value is read under the previous transaction id
    let prior = ops.iter().find(|o| {
        o.rw == RW::Read
            && o.op == OpEnum::TxReceipt {
                tx_id: 1,
                field: TxReceiptField::CumulativeGasUsed,
                value: 60_000,
            }
    });
    assert!(prior.is_some());
    assert_eq!(state.cumulative_gas_used, 70_000);
    // the next transaction's id is pre-written
    let next = ops.iter().any(|o| {
        matches!(
            o.op,
            OpEnum::CallContext { field: CallContextField::TxId, value, .. }
                if value == Word::from_u64(3)
        )
    });
    assert!(next);
}
