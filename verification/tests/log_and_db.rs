use bus_mapping::exec_step::{Call, ExecStep, ExecState};
use bus_mapping::operation::{AccountField, OpEnum, Operation, OperationContainer, RW};
use bus_mapping::state::{BlockData, CircuitInputState, TxData};
use bus_mapping::state_db::{Account, StateDB};
use bus_mapping::word::{Address, Word};

fn addr(n: u64) -> Address {
    Address { hi: 0, mid: 0, lo: n }
}

fn base_state() -> CircuitInputState {
    CircuitInputState {
        sdb: StateDB::new(),
        container: OperationContainer::new(),
        block: BlockData {
            coinbase: addr(9000),
            base_fee: Word::from_u64(1),
            sha3_inputs: Vec::new(),
        },
        tx: TxData {
            nonce: 0,
            gas: 100_000,
            gas_price: Word::from_u64(2),
            value: Word::zero(),
            input: Vec::new(),
            is_create: false,
            caller_address: addr(1),
            callee_address: addr(2),
            l1_fee: Word::zero(),
        },
        tx_id: 1,
        is_last_tx: true,
        cumulative_gas_used: 0,
        calls: Vec::new(),
        call_stack: Vec::new(),
        next_call_id: 2,
        check_mem_strict: true,
    }
}

fn root_call(callee: Address) -> Call {
    Call {
        call_id: 1,
        caller_id: 0,
        caller_address: addr(1),
        address: callee,
        value: Word::zero(),
        depth: 1,
        is_static: false,
        is_create: false,
        is_persistent: true,
        is_success: true,
        rw_counter_end_of_reversion: 0,
        code_hash: Word::zero(),
        call_data_offset: 0,
        call_data_length: 0,
    }
}

fn fresh_step() -> ExecStep {
    ExecStep {
        exec_state: ExecState::BeginTx,
        pc: 0,
        stack_size: 0,
        gas_left: 0,
        gas_cost: 0,
        call_index: 0,
        rwc_start: 1,
        bus_mapping_instance: Vec::new(),
        error: None,
        function_index: 0,
        num_locals: 0,
        max_stack_height: 0,
        log_id: 0,
    }
}

#[test]
fn rw_counters_are_gapless_from_one() {
    let mut c = OperationContainer::new();
    for i in 0..5usize {
        let op = OpEnum::Stack { call_id: 1, address: i, value: i as u64 };
        let idx = c.push(RW::Read, op);
        assert_eq!(idx, i);
    }
    for i in 0..5usize {
        assert_eq!(c.ops[i].rwc, i + 1);
        if i > 0 {
            assert!(c.ops[i - 1].rwc < c.ops[i].rwc);
            assert_eq!(c.ops[i].rwc, c.ops[i - 1].rwc + 1);
        }
    }
}

#[test]
fn journal_latest_entry_wins() {
    let mut db = StateDB::new();
    let a = addr(7);
    let read0 = db.get_account(&a);
    assert_eq!(read0, Account { nonce: 0, balance: Word::zero(), code_hash: Word::zero() });
    db.set_account(a, Account { nonce: 3, balance: Word::from_u64(50), code_hash: Word::zero() });
    db.set_account(a, Account { nonce: 4, balance: Word::from_u64(60), code_hash: Word::zero() });
    assert_eq!(db.get_account(&a).nonce, 4);
    assert_eq!(db.get_account(&a).balance, Word::from_u64(60));
    assert_eq!(db.get_account(&addr(8)).nonce, 0);
}

#[test]
fn destruct_account_erases_storage() {
    let mut db = StateDB::new();
    let a = addr(7);
    let b = addr(8);
    db.set_account(a, Account { nonce: 1, balance: Word::from_u64(5), code_hash: Word::from_u64(9) });
    db.set_storage(a, Word::from_u64(1), Word::from_u64(11));
    db.set_storage(b, Word::from_u64(1), Word::from_u64(22));
    db.destruct_account(a);
    assert_eq!(db.get_account(&a), Account { nonce: 0, balance: Word::zero(), code_hash: Word::zero() });
    assert_eq!(db.get_storage(&a, &Word::from_u64(1)), Word::zero());
    assert_eq!(db.get_storage(&b, &Word::from_u64(1)), Word::from_u64(22));
}

#[test]
fn access_list_warms_and_clears() {
    let mut db = StateDB::new();
    let a = addr(5);
    assert!(!db.check_account_in_access_list(&a));
    assert!(db.add_account_to_access_list(a));
    assert!(!db.add_account_to_access_list(a));
    assert!(db.check_account_in_access_list(&a));
    assert!(db.add_account_storage_to_access_list(a, Word::from_u64(3)));
    assert!(!db.add_account_storage_to_access_list(a, Word::from_u64(3)));
    db.clear_access_list();
    assert!(!db.check_account_in_access_list(&a));
    assert!(!db.check_account_storage_in_access_list(&a, &Word::from_u64(3)));
}

#[test]
fn account_write_validates_previous_value() {
    let mut state = base_state();
    state.push_call(root_call(addr(2)), Vec::new());
    let mut step = fresh_step();
    let a = addr(3);
    state.sdb.set_account(a, Account { nonce: 0, balance: Word::from_u64(10), code_hash: Word::zero() });
    // the claimed previous value must equal the database's current value
    let bad = state.account_write(&mut step, a, AccountField::Balance, Word::from_u64(1), Word::from_u64(99));
    assert!(bad.is_err());
    assert_eq!(state.container.ops.len(), 0);
    let good = state.account_write(&mut step, a, AccountField::Balance, Word::from_u64(1), Word::from_u64(10));
    assert!(good.is_ok());
    assert_eq!(state.container.ops.len(), 1);
    assert_eq!(
        state.container.ops[0],
        Operation {
            rwc: 1,
            rw: RW::Write,
            op: OpEnum::Account {
                address: a,
                field: AccountField::Balance,
                value: Word::from_u64(1),
                value_prev: Word::from_u64(10),
            },
        }
    );
    assert_eq!(state.sdb.get_account(&a).balance, Word::from_u64(1));
}

#[test]
fn repeated_reads_return_identical_values_without_moving_the_database() {
    let mut state = base_state();
    state.push_call(root_call(addr(2)), Vec::new());
    let mut step = fresh_step();
    let a = addr(3);
    state.sdb.set_account(a, Account { nonce: 7, balance: Word::from_u64(10), code_hash: Word::zero() });
    state
        .account_read(&mut step, a, AccountField::Nonce, Word::from_u64(7))
        .unwrap();
    state
        .account_read(&mut step, a, AccountField::Nonce, Word::from_u64(7))
        .unwrap();
    assert_eq!(state.container.ops.len(), 2);
    assert_eq!(state.container.ops[0].op, state.container.ops[1].op);
    assert_eq!(state.container.ops[0].rw, RW::Read);
    assert_eq!(state.sdb.get_account(&a).nonce, 7);
    // a mismatching read is a fatal divergence
    let bad = state.account_read(&mut step, a, AccountField::Nonce, Word::from_u64(8));
    assert!(bad.is_err());
}

#[test]
fn reversion_round_trip_restores_the_database() {
    let mut state = base_state();
    state.push_call(root_call(addr(2)), Vec::new());
    let mut step = fresh_step();
    let a = addr(3);
    state.sdb.set_account(a, Account { nonce: 0, balance: Word::from_u64(100), code_hash: Word::zero() });
    state.sdb.set_storage(a, Word::from_u64(1), Word::from_u64(5));

    state
        .push_op_reversible(
            &mut step,
            OpEnum::Account {
                address: a,
                field: AccountField::Balance,
                value: Word::from_u64(40),
                value_prev: Word::from_u64(100),
            },
        )
        .unwrap();
    state
        .push_op_reversible(
            &mut step,
            OpEnum::Storage {
                tx_id: 1,
                address: a,
                key: Word::from_u64(1),
                value: Word::from_u64(6),
                value_prev: Word::from_u64(5),
            },
        )
        .unwrap();
    assert_eq!(state.sdb.get_account(&a).balance, Word::from_u64(40));
    assert_eq!(state.sdb.get_storage(&a, &Word::from_u64(1)), Word::from_u64(6));
    assert_eq!(state.container.ops.len(), 2);

    state.handle_reversion(&mut step);

    // the database reads exactly as before the two writes
    assert_eq!(state.sdb.get_account(&a).balance, Word::from_u64(100));
    assert_eq!(state.sdb.get_storage(&a, &Word::from_u64(1)), Word::from_u64(5));
    // the log stayed append-only: two compensating entries, in reverse
    // order, with value and previous value swapped
    assert_eq!(state.container.ops.len(), 4);
    assert_eq!(
        state.container.ops[2].op,
        OpEnum::Storage {
            tx_id: 1,
            address: a,
            key: Word::from_u64(1),
            value: Word::from_u64(5),
            value_prev: Word::from_u64(6),
        }
    );
    assert_eq!(
        state.container.ops[3].op,
        OpEnum::Account {
            address: a,
            field: AccountField::Balance,
            value: Word::from_u64(100),
            value_prev: Word::from_u64(40),
        }
    );
    assert_eq!(state.container.ops[3].rwc, 4);
}

#[test]
fn global_variable_ops_are_logged() {
    let mut state = base_state();
    state.push_call(root_call(addr(2)), Vec::new());
    let mut step = fresh_step();
    state.global_write(&mut step, 2, 77).unwrap();
    state.global_read(&mut step, 2, 77).unwrap();
    assert_eq!(state.container.ops.len(), 2);
    assert_eq!(state.container.ops[0].rw, RW::Write);
    assert_eq!(state.container.ops[0].op, OpEnum::Global { call_id: 1, index: 2, value: 77 });
    assert_eq!(state.container.ops[1].rw, RW::Read);
    assert_eq!(state.container.ops[1].op, OpEnum::Global { call_id: 1, index: 2, value: 77 });
}

#[test]
fn transfer_with_fee_moves_value_and_burns_fee() {
    let mut state = base_state();
    state.push_call(root_call(addr(2)), Vec::new());
    let mut step = fresh_step();
    let from = addr(1);
    let to = addr(2);
    state.sdb.set_account(from, Account { nonce: 0, balance: Word::from_u64(1000), code_hash: Word::zero() });
    state
        .transfer_with_fee(&mut step, from, to, Word::from_u64(300), Some(Word::from_u64(50)))
        .unwrap();
    assert_eq!(state.sdb.get_account(&from).balance, Word::from_u64(650));
    assert_eq!(state.sdb.get_account(&to).balance, Word::from_u64(300));
    assert_eq!(state.container.ops.len(), 3);
    // an insufficient balance is fatal
    let short = state.transfer_with_fee(&mut step, from, to, Word::from_u64(10_000), None);
    assert!(short.is_err());
}
