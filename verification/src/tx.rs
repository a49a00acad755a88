//! The transaction lifecycle: the fixed prologue and epilogue operation
//! sequences surrounding a transaction's opcode trace.

use vstd::prelude::*;
use crate::error::Error;
use crate::exec_step::{ExecState, ExecStep, Trace};
use crate::operation::{
    AccountField, CallContextField, OpEnum, Operation, RW, TxReceiptField,
};
use crate::state::CircuitInputState;
use crate::state_db::DbKey;
use crate::word::{word_add, word_mul_u64, word_sub, Word};

verus! {

/// The base intrinsic gas of a contract-creating transaction.
pub const CREATION_TX_GAS: u64 = 53000;

/// The base intrinsic gas of an ordinary transaction.
pub const TX_GAS: u64 = 21000;

/// The quotient capping the effective refund against the gas used.
pub const MAX_REFUND_QUOTIENT_OF_GAS_USED: u64 = 5;

/// The code hash of an account without code (the digest of the empty byte
/// string), split into its four little-endian limbs.
pub fn empty_code_hash() -> (r: Word)
    ensures
        r == (Word {
            l0: 0x7bfa_d804_5d85_a470,
            l1: 0xe500_b653_ca82_273b,
            l2: 0x927e_7db2_dcc7_03c0,
            l3: 0xc5d2_4601_86f7_233c,
        }),
{
    Word {
        l0: 0x7bfa_d804_5d85_a470,
        l1: 0xe500_b653_ca82_273b,
        l2: 0x927e_7db2_dcc7_03c0,
        l3: 0xc5d2_4601_86f7_233c,
    }
}

/// Chains the database effects of the prologue's three phases — opening
/// (nonce bump and warm-up), settlement (fee and value), and frame
/// establishment — into end-to-end facts over the entry state.
proof fn lemma_begin_db_finals(
    st0: CircuitInputState,
    st1: CircuitInputState,
    st2: CircuitInputState,
    st3: CircuitInputState,
    caller: crate::word::Address,
    callee: crate::word::Address,
    tx_nonce: u64,
    fee_n: int,
    v: int,
)
    requires
        st1.sdb.spec_warm_account(caller),
        st1.sdb.spec_warm_account(callee),
        st1.sdb.db_read((DbKey::AccountNonce { address: caller })) == tx_nonce + 1,
        forall|k: DbKey|
            k != (DbKey::AccountNonce { address: caller }) && k != (DbKey::WarmAccount {
                address: caller,
            }) && k != (DbKey::WarmAccount { address: callee })
                ==> #[trigger] st1.sdb.db_read(k) == st0.sdb.db_read(k),
        caller != callee ==> st2.sdb.db_read((DbKey::AccountBalance { address: caller }))
            == st1.sdb.spec_account(caller).balance.as_nat() - fee_n - v
            && st2.sdb.db_read((DbKey::AccountBalance { address: callee }))
            == st1.sdb.spec_account(callee).balance.as_nat() + v,
        caller == callee ==> st2.sdb.db_read((DbKey::AccountBalance { address: caller }))
            == st1.sdb.spec_account(caller).balance.as_nat() - fee_n,
        forall|k: DbKey|
            k != (DbKey::AccountBalance { address: caller })
                && !crate::state_db::db_key_of_account(k, callee)
                ==> #[trigger] st2.sdb.db_read(k) == st1.sdb.db_read(k),
        forall|k: DbKey|
            k != (DbKey::AccountNonce { address: callee }) ==> #[trigger] st3.sdb.db_read(k)
                == st2.sdb.db_read(k),
    ensures
        st3.sdb.spec_warm_account(caller),
        st3.sdb.spec_warm_account(callee),
        callee != caller ==> st3.sdb.db_read((DbKey::AccountNonce { address: caller }))
            == tx_nonce + 1,
        caller != callee ==> st3.sdb.db_read((DbKey::AccountBalance { address: caller }))
            == st0.sdb.spec_account(caller).balance.as_nat() - fee_n - v,
        caller != callee && callee != caller ==> st3.sdb.db_read((DbKey::AccountBalance {
            address: callee,
        })) == st0.sdb.spec_account(callee).balance.as_nat() + v,
        caller == callee ==> st3.sdb.db_read((DbKey::AccountBalance { address: caller }))
            == st0.sdb.spec_account(caller).balance.as_nat() - fee_n,
{
    let kwc = DbKey::WarmAccount { address: caller };
    let kwe = DbKey::WarmAccount { address: callee };
    let knc = DbKey::AccountNonce { address: caller };
    let kbc = DbKey::AccountBalance { address: caller };
    let kbe = DbKey::AccountBalance { address: callee };
    assert(st2.sdb.db_read(kwc) == st1.sdb.db_read(kwc));
    assert(st3.sdb.db_read(kwc) == st2.sdb.db_read(kwc));
    assert(st1.sdb.db_read(kwc) == 1);
    assert(st3.sdb.spec_warm_account(caller));
    assert(st2.sdb.db_read(kwe) == st1.sdb.db_read(kwe));
    assert(st3.sdb.db_read(kwe) == st2.sdb.db_read(kwe));
    assert(st1.sdb.db_read(kwe) == 1);
    assert(st3.sdb.spec_warm_account(callee));
    if callee != caller {
        assert(st2.sdb.db_read(knc) == st1.sdb.db_read(knc));
        assert(st3.sdb.db_read(knc) == st2.sdb.db_read(knc));
    }
    assert(st1.sdb.db_read(kbc) == st0.sdb.db_read(kbc));
    assert(st1.sdb.spec_account(caller).balance.as_nat()
        == st0.sdb.spec_account(caller).balance.as_nat());
    if caller != callee {
        assert(st1.sdb.db_read(kbe) == st0.sdb.db_read(kbe));
        assert(st1.sdb.spec_account(callee).balance.as_nat()
            == st0.sdb.spec_account(callee).balance.as_nat());
        assert(st3.sdb.db_read(kbc) == st2.sdb.db_read(kbc));
        assert(st3.sdb.db_read(kbe) == st2.sdb.db_read(kbe));
    } else {
        assert(st3.sdb.db_read(kbc) == st2.sdb.db_read(kbc));
    }
}

/// The settlement operation count, phrased over the settlement's own
/// entry state.
pub open spec fn begin_settle_count_now(st: CircuitInputState, call: crate::exec_step::Call) -> int {
    let callee = call.address;
    let acct = st.sdb.spec_account(callee);
    let precomp = 1 <= callee.as_nat() <= 9;
    let exists_at = !(acct.nonce == 0 && acct.balance.as_nat() == 0 && acct.code_hash.as_nat()
        == 0) || precomp;
    let empty_h = if st.tx.is_create {
        false
    } else if exists_at {
        call.code_hash == spec_empty_code_hash()
    } else {
        true
    };
    let has_read: int = if !precomp && !call.is_create {
        1int
    } else {
        0int
    };
    let t: int = 1 + if st.tx.value.as_nat() == 0 {
        0int
    } else {
        2int
    };
    let frame_n: int = if st.tx.is_create {
        14int
    } else if !precomp && !empty_h {
        13int
    } else {
        0int
    };
    has_read + t + frame_n
}

/// The opening of the prologue: the synthetic row, the four
/// context-establishing writes, the caller's nonce bump and the
/// access-list warm-up of caller and callee.
#[verifier::rlimit(100)]
/// The opening phase's full postcondition: row shape, the seven pinned
/// operations, the nonce and warm effects, and the settlement bridges.
#[verifier::opaque]
pub open spec fn open_prologue_post(
    pre: CircuitInputState,
    post: CircuitInputState,
    s: ExecStep,
    c: crate::exec_step::Call,
) -> bool {
                let call = pre.spec_call();
                &&& c == call
                &&& s.exec_state == ExecState::BeginTx
                &&& s.error.is_none()
                &&& s.gas_left == pre.tx.gas
                &&& s.stack_size == 0
                &&& s.function_index == 0
                &&& s.num_locals == 0
                &&& s.max_stack_height == 0
                &&& post.ops().len() == pre.ops().len() + 7
                &&& (forall|j: int|
                    0 <= j < pre.ops().len() ==> #[trigger] post.ops()[j] == pre.ops()[j])
                &&& post.ops()[pre.ops().len() as int] == (Operation {
                    rwc: (pre.ops().len() + 1) as usize,
                    rw: RW::Write,
                    op: OpEnum::CallContext {
                        call_id: call.call_id,
                        field: CallContextField::TxId,
                        value: Word { l0: pre.tx_id as u64, l1: 0, l2: 0, l3: 0 },
                    },
                })
                &&& post.ops()[pre.ops().len() + 1int] == (Operation {
                    rwc: (pre.ops().len() + 2) as usize,
                    rw: RW::Write,
                    op: OpEnum::CallContext {
                        call_id: call.call_id,
                        field: CallContextField::RwCounterEndOfReversion,
                        value: Word {
                            l0: call.rw_counter_end_of_reversion as u64,
                            l1: 0,
                            l2: 0,
                            l3: 0,
                        },
                    },
                })
                &&& post.ops()[pre.ops().len() + 2int] == (Operation {
                    rwc: (pre.ops().len() + 3) as usize,
                    rw: RW::Write,
                    op: OpEnum::CallContext {
                        call_id: call.call_id,
                        field: CallContextField::IsPersistent,
                        value: Word {
                            l0: if call.is_persistent {
                                1
                            } else {
                                0
                            },
                            l1: 0,
                            l2: 0,
                            l3: 0,
                        },
                    },
                })
                &&& post.ops()[pre.ops().len() + 3int] == (Operation {
                    rwc: (pre.ops().len() + 4) as usize,
                    rw: RW::Write,
                    op: OpEnum::CallContext {
                        call_id: call.call_id,
                        field: CallContextField::IsSuccess,
                        value: Word {
                            l0: if call.is_success {
                                1
                            } else {
                                0
                            },
                            l1: 0,
                            l2: 0,
                            l3: 0,
                        },
                    },
                })
                &&& post.ops()[pre.ops().len() + 4int] == (Operation {
                    rwc: (pre.ops().len() + 5) as usize,
                    rw: RW::Write,
                    op: OpEnum::Account {
                        address: call.caller_address,
                        field: AccountField::Nonce,
                        value: Word {
                            l0: (pre.tx.nonce + 1) as u64,
                            l1: 0,
                            l2: 0,
                            l3: 0,
                        },
                        value_prev: Word { l0: pre.tx.nonce, l1: 0, l2: 0, l3: 0 },
                    },
                })
                &&& post.ops()[pre.ops().len() + 5int] == (Operation {
                    rwc: (pre.ops().len() + 6) as usize,
                    rw: RW::Write,
                    op: OpEnum::TxAccessListAccount {
                        tx_id: pre.tx_id,
                        address: call.caller_address,
                        is_warm: true,
                        is_warm_prev: pre.sdb.spec_warm_account(call.caller_address),
                    },
                })
                &&& post.ops()[pre.ops().len() + 6int] == (Operation {
                    rwc: (pre.ops().len() + 7) as usize,
                    rw: RW::Write,
                    op: OpEnum::TxAccessListAccount {
                        tx_id: pre.tx_id,
                        address: call.address,
                        is_warm: true,
                        is_warm_prev: call.address == call.caller_address || pre.sdb.spec_warm_account(call.address),
                    },
                })
                &&& s.bus_mapping_instance@.len() == 7
                &&& crate::opcodes::bmi_contiguous(s, pre.ops().len() as int)
                &&& post.sdb.spec_warm_account(call.caller_address)
                &&& post.sdb.spec_warm_account(call.address)
                &&& post.sdb.db_read((DbKey::AccountNonce {
                    address: call.caller_address,
                })) == pre.tx.nonce + 1
                &&& (settle_callee_ok(post, call) <==> begin_settle_ok(
                    pre,
                    call,
                ))
                &&& begin_settle_count_now(post, call) == begin_settle_count(
                    pre,
                    call,
                )
                &&& spec_callee_exists(post, call.address) == begin_callee_exists_at(
                    pre,
                    call,
                )
                &&& (forall|k: DbKey|
                    k != (DbKey::AccountNonce { address: call.caller_address }) && k != (
                    DbKey::WarmAccount { address: call.caller_address }) && k != (
                    DbKey::WarmAccount { address: call.address })
                        ==> #[trigger] post.sdb.db_read(k) == pre.sdb.db_read(k))
}

fn open_prologue(state: &mut CircuitInputState, geth_trace: &Trace) -> (r: Result<
    (ExecStep, crate::exec_step::Call),
    Error,
>)
    requires
        old(state).wf(),
        old(state).call_stack@.len() > 0,
        old(state).ops().len() + old(state).call_stack@.last().reversible@.len() + 2200
            < usize::MAX,
        old(state).tx.input@.len() < 0x1_0000_0000,
        old(state).tx.nonce < u64::MAX,
        old(state).tx_id <= 0xffff_ffff,
        old(state).spec_call().is_create == old(state).tx.is_create,
    ensures
        final(state).wf(),
        crate::state::scalar_frame(*old(state), *final(state)),
        final(state).calls@ == old(state).calls@,
        final(state).call_stack@ == old(state).call_stack@,
        r.is_ok() <==> old(state).sdb.spec_account(old(state).spec_call().caller_address).nonce
            <= old(state).tx.nonce,
        match r {
            Ok((s, c)) => c == old(state).spec_call() && final(state).ops().len() == old(
                state,
            ).ops().len() + 7 && s.stack_size == 0 && s.error.is_none() && s.exec_state
                == ExecState::BeginTx && s.gas_left == old(state).tx.gas && (settle_callee_ok(
                *final(state),
                c,
            ) <==> begin_settle_ok(*old(state), c)) && open_prologue_post(
                *old(state),
                *final(state),
                s,
                c,
            ),
            Err(_) => true,
        },
{
    proof {
        reveal(open_prologue_post);
    }
    let mut exec_step = ExecStep {
        exec_state: ExecState::BeginTx,
        pc: 0,
        stack_size: 0,
        gas_left: state.tx.gas,
        gas_cost: 0,
        call_index: state.call_stack[state.call_stack.len() - 1].call_index,
        rwc_start: state.container.ops.len() + 1,
        bus_mapping_instance: Vec::new(),
        error: None,
        function_index: 0,
        num_locals: 0,
        max_stack_height: 0,
        log_id: 0,
    };
    let call = state.call()?;
    let tx_id_word = Word::from_u64(state.tx_id as u64);

    // context-establishing writes, in fixed order
    state.call_context_write(&mut exec_step, call.call_id, CallContextField::TxId, tx_id_word);
    state.call_context_write(
        &mut exec_step,
        call.call_id,
        CallContextField::RwCounterEndOfReversion,
        Word::from_u64(call.rw_counter_end_of_reversion as u64),
    );
    let persistent_flag: u64 = if call.is_persistent {
        1
    } else {
        0
    };
    state.call_context_write(
        &mut exec_step,
        call.call_id,
        CallContextField::IsPersistent,
        Word::from_u64(persistent_flag),
    );
    let success_flag: u64 = if call.is_success {
        1
    } else {
        0
    };
    state.call_context_write(
        &mut exec_step,
        call.call_id,
        CallContextField::IsSuccess,
        Word::from_u64(success_flag),
    );

    // bring the caller's nonce up to the transaction's, then bump it
    let caller_address = call.caller_address;
    let nonce_prev = match bump_caller_nonce(state, &mut exec_step, caller_address) {
        Ok(v) => v,
        Err(e) => { return Err(e); },
    };

    // warm up the caller and callee addresses
    let ghost db_b = state.sdb;
    proof {
        let kwc = DbKey::WarmAccount { address: caller_address };
        let kwe = DbKey::WarmAccount { address: call.address };
        assert(db_b.db_read(kwc) == old(state).sdb.db_read(kwc));
        assert(db_b.db_read(kwe) == old(state).sdb.db_read(kwe));
        assert(db_b.spec_warm_account(caller_address) == old(state).sdb.spec_warm_account(
            caller_address,
        ));
        assert(db_b.spec_warm_account(call.address) == old(state).sdb.spec_warm_account(
            call.address,
        ));
    }
    let tx_id = state.tx_id;
    match state.tx_accesslist_account_write(&mut exec_step, tx_id, caller_address, true) {
        Ok(()) => (),
        Err(e) => { return Err(e); },
    }
    let ghost db_w1 = state.sdb;
    proof {
        let kwe = DbKey::WarmAccount { address: call.address };
        if call.address == caller_address {
            assert(db_w1.spec_warm_account(call.address));
        } else {
            assert(db_w1.db_read(kwe) == db_b.db_read(kwe));
            assert(db_w1.spec_warm_account(call.address) == db_b.spec_warm_account(call.address));
        }
    }
    match state.tx_accesslist_account_write(&mut exec_step, tx_id, call.address, true) {
        Ok(()) => (),
        Err(e) => { return Err(e); },
    }

    // intrinsic gas: base cost plus the calldata byte costs
    let call_data_gas_cost = call_data_cost(&state.tx.input);
    let base_gas: u64 = if state.tx.is_create {
        CREATION_TX_GAS
    } else {
        TX_GAS
    };
    exec_step.gas_cost = base_gas + call_data_gas_cost;

    // callee lookup, collision detection, transfer and frame establishment
    proof {
        let callee = call.address;
        let caller = call.caller_address;
        assert forall|b: crate::word::Address, f: AccountField|
            (crate::state::account_field_key(b, f)) != (DbKey::AccountNonce {
                address: caller,
            }) implies #[trigger] crate::state::spec_account_field(state.sdb, b, f)
            == crate::state::spec_account_field(old(state).sdb, b, f) by {
            assert(crate::state::spec_account_field(db_b, b, f)
                == crate::state::spec_account_field(old(state).sdb, b, f));
            assert(crate::state::spec_account_field(db_w1, b, f)
                == crate::state::spec_account_field(db_b, b, f));
            assert(crate::state::spec_account_field(state.sdb, b, f)
                == crate::state::spec_account_field(db_w1, b, f));
        }
        assert(crate::state::spec_account_field(state.sdb, caller, AccountField::Balance)
            == crate::state::spec_account_field(old(state).sdb, caller, AccountField::Balance));
        assert(crate::state::spec_account_field(state.sdb, callee, AccountField::Balance)
            == crate::state::spec_account_field(old(state).sdb, callee, AccountField::Balance));
        assert(crate::state::spec_account_field(state.sdb, callee, AccountField::CodeHash)
            == crate::state::spec_account_field(old(state).sdb, callee, AccountField::CodeHash));
        assert(state.sdb.spec_account(caller).balance
            == old(state).sdb.spec_account(caller).balance);
        assert(state.sdb.spec_account(callee).balance
            == old(state).sdb.spec_account(callee).balance);
        assert(state.sdb.spec_account(callee).code_hash
            == old(state).sdb.spec_account(callee).code_hash);
        if callee == caller {
            assert(state.sdb.db_read((DbKey::AccountNonce { address: callee }))
                == db_w1.db_read((DbKey::AccountNonce { address: callee })));
            assert(db_w1.db_read((DbKey::AccountNonce { address: callee }))
                == db_b.db_read((DbKey::AccountNonce { address: callee })));
            assert(db_b.spec_account(callee).nonce == old(state).tx.nonce + 1);
        } else {
            assert(state.sdb.db_read((DbKey::AccountNonce { address: callee }))
                == db_w1.db_read((DbKey::AccountNonce { address: callee })));
            assert(db_w1.db_read((DbKey::AccountNonce { address: callee }))
                == db_b.db_read((DbKey::AccountNonce { address: callee })));
            assert(db_b.db_read((DbKey::AccountNonce { address: callee }))
                == old(state).sdb.db_read((DbKey::AccountNonce { address: callee })));
        }
        assert(state.sdb.spec_account(callee).nonce as int == spec_nonce_at_settle(
            *old(state),
            call,
        ));
        assert(settle_callee_ok(*state, call) <==> begin_settle_ok(*old(state), call));
        let kwc = DbKey::WarmAccount { address: caller_address };
        if call.address != caller_address {
            assert(state.sdb.db_read(kwc) == db_w1.db_read(kwc));
            assert(state.sdb.spec_warm_account(caller_address)
                == db_w1.spec_warm_account(caller_address));
        }
        assert(state.sdb.spec_warm_account(caller_address));
        assert(state.sdb.spec_warm_account(call.address));
    }
    Ok((exec_step, call))
}

/// The remainder of the prologue's output, pinned as one block over the
/// entry and final states: the pinned operations and the settled database.
pub open spec fn begin_tx_layout(
    pre: CircuitInputState,
    post: CircuitInputState,
    trace: Trace,
    call: crate::exec_step::Call,
) -> bool {
    &&& begin_tx_layout_ops(pre, post, trace, call)
    &&& begin_tx_layout_db(pre, post, call)
}

/// The operation half of the prologue layout.
#[verifier::opaque]
pub open spec fn begin_tx_layout_ops(
    pre: CircuitInputState,
    post: CircuitInputState,
    trace: Trace,
    call: crate::exec_step::Call,
) -> bool {
                &&& post.ops()[pre.ops().len() as int] == (Operation {
                    rwc: (pre.ops().len() + 1) as usize,
                    rw: RW::Write,
                    op: OpEnum::CallContext {
                        call_id: call.call_id,
                        field: CallContextField::TxId,
                        value: Word { l0: pre.tx_id as u64, l1: 0, l2: 0, l3: 0 },
                    },
                })
                &&& post.ops()[pre.ops().len() + 1int] == (Operation {
                    rwc: (pre.ops().len() + 2) as usize,
                    rw: RW::Write,
                    op: OpEnum::CallContext {
                        call_id: call.call_id,
                        field: CallContextField::RwCounterEndOfReversion,
                        value: Word {
                            l0: call.rw_counter_end_of_reversion as u64,
                            l1: 0,
                            l2: 0,
                            l3: 0,
                        },
                    },
                })
                &&& post.ops()[pre.ops().len() + 2int] == (Operation {
                    rwc: (pre.ops().len() + 3) as usize,
                    rw: RW::Write,
                    op: OpEnum::CallContext {
                        call_id: call.call_id,
                        field: CallContextField::IsPersistent,
                        value: Word {
                            l0: if call.is_persistent {
                                1
                            } else {
                                0
                            },
                            l1: 0,
                            l2: 0,
                            l3: 0,
                        },
                    },
                })
                &&& post.ops()[pre.ops().len() + 3int] == (Operation {
                    rwc: (pre.ops().len() + 4) as usize,
                    rw: RW::Write,
                    op: OpEnum::CallContext {
                        call_id: call.call_id,
                        field: CallContextField::IsSuccess,
                        value: Word {
                            l0: if call.is_success {
                                1
                            } else {
                                0
                            },
                            l1: 0,
                            l2: 0,
                            l3: 0,
                        },
                    },
                })
                // the caller's nonce increment and the access-list warm-up
                &&& post.ops()[pre.ops().len() + 4int] == (Operation {
                    rwc: (pre.ops().len() + 5) as usize,
                    rw: RW::Write,
                    op: OpEnum::Account {
                        address: call.caller_address,
                        field: AccountField::Nonce,
                        value: Word {
                            l0: (pre.tx.nonce + 1) as u64,
                            l1: 0,
                            l2: 0,
                            l3: 0,
                        },
                        value_prev: Word { l0: pre.tx.nonce, l1: 0, l2: 0, l3: 0 },
                    },
                })
                &&& post.ops()[pre.ops().len() + 5int] == (Operation {
                    rwc: (pre.ops().len() + 6) as usize,
                    rw: RW::Write,
                    op: OpEnum::TxAccessListAccount {
                        tx_id: pre.tx_id,
                        address: call.caller_address,
                        is_warm: true,
                        is_warm_prev: pre.sdb.spec_warm_account(call.caller_address),
                    },
                })
                &&& post.ops()[pre.ops().len() + 6int] == (Operation {
                    rwc: (pre.ops().len() + 7) as usize,
                    rw: RW::Write,
                    op: OpEnum::TxAccessListAccount {
                        tx_id: pre.tx_id,
                        address: call.address,
                        is_warm: true,
                        is_warm_prev: call.address == call.caller_address || pre.sdb.spec_warm_account(call.address),
                    },
                })
                &&& (pre.tx.is_create ==> post.block.sha3_inputs@.len()
                    == pre.block.sha3_inputs@.len() + 1
                    && post.block.sha3_inputs@.last()@
                    == crate::externals::rlp_address_nonce(
                    call.caller_address,
                    pre.tx.nonce,
                ))
                &&& (!pre.tx.is_create ==> post.block.sha3_inputs@
                    == pre.block.sha3_inputs@)
                &&& ({
                    let callee = call.address;
                    let caller = call.caller_address;
                    let precomp = 1 <= callee.as_nat() <= 9;
                    let exists_at = begin_callee_exists_at(pre, call);
                    let empty_h = if pre.tx.is_create {
                        false
                    } else if exists_at {
                        call.code_hash == spec_empty_code_hash()
                    } else {
                        true
                    };
                    let has_read: int = if !precomp && !call.is_create {
                        1int
                    } else {
                        0int
                    };
                    let t: int = 1 + if pre.tx.value.as_nat() == 0 {
                        0int
                    } else {
                        2int
                    };
                    let frame_n: int = if pre.tx.is_create {
                        14int
                    } else if !precomp && !empty_h {
                        13int
                    } else {
                        0int
                    };
                    let fee_n = pre.tx.gas_price.as_nat() * pre.tx.gas + pre.tx.l1_fee.as_nat();
                    let v = pre.tx.value.as_nat() as int;
                    let base_s = pre.ops().len() as int + 7;
                    let base_c = base_s + has_read + t;
                    let base_m = base_c + frame_n;
                    // the callee code-hash read, skipped for precompiles
                    // and contract creation; zero for an absent callee
                    &&& (has_read == 1 ==> post.ops()[base_s].rwc == base_s + 1 && post.ops()[base_s].rw == RW::Read && post.ops()[base_s].op
                        == (OpEnum::Account {
                        address: callee,
                        field: AccountField::CodeHash,
                        value: if exists_at {
                            call.code_hash
                        } else {
                            Word { l0: 0, l1: 0, l2: 0, l3: 0 }
                        },
                        value_prev: if exists_at {
                            call.code_hash
                        } else {
                            Word { l0: 0, l1: 0, l2: 0, l3: 0 }
                        },
                    }))
                    // the up-front fee leaves the caller
                    &&& post.ops()[base_s + has_read].rwc == base_s + has_read + 1
                    &&& post.ops()[base_s + has_read].rw == RW::Write
                    &&& (post.ops()[base_s + has_read].op matches OpEnum::Account {
                        address,
                        field: AccountField::Balance,
                        value,
                        value_prev,
                    } && address == caller && value_prev.as_nat() == pre.sdb.spec_account(
                        caller,
                    ).balance.as_nat() && value.as_nat() == pre.sdb.spec_account(
                        caller,
                    ).balance.as_nat() - fee_n)
                    // creation seeds the created account's nonce reversibly
                    // and establishes the frame at the derived address; a
                    // plain call to real code establishes it at the callee
                    &&& (pre.tx.is_create ==> post.ops()[base_c] == (Operation {
                        rwc: (base_c + 1) as usize,
                        rw: RW::Write,
                        op: OpEnum::Account {
                            address: callee,
                            field: AccountField::Nonce,
                            value: Word { l0: 1, l1: 0, l2: 0, l3: 0 },
                            value_prev: Word { l0: 0, l1: 0, l2: 0, l3: 0 },
                        },
                    }) && post.ops()[base_c + 3].op == (OpEnum::CallContext {
                        call_id: call.call_id,
                        field: CallContextField::CalleeAddress,
                        value: {
                            let (dh, dm, dl) = crate::externals::contract_address_of(
                                caller.hi,
                                caller.mid,
                                caller.lo,
                                pre.tx.nonce,
                            );
                            Word { l0: dl, l1: dm, l2: dh as u64, l3: 0 }
                        },
                    }))
                    &&& (!pre.tx.is_create && frame_n == 13 ==> post.ops()[base_c
                        + 2].op == (OpEnum::CallContext {
                        call_id: call.call_id,
                        field: CallContextField::CalleeAddress,
                        value: Word {
                            l0: callee.lo,
                            l1: callee.mid,
                            l2: callee.hi as u64,
                            l3: 0,
                        },
                    }))
                    // the interpreter-init block and the total length
                    &&& post.ops().len() == base_m + trace.global_memory@.len()
                        + trace.globals@.len() + trace.function_calls@[0].num_locals
                    &&& init_ops_pinned(post.ops(), base_m, trace, call.call_id)
                })
}

/// The database half of the prologue layout: the warm flags, the caller's
/// settled nonce, and the settled balances.
#[verifier::opaque]
pub open spec fn begin_tx_layout_db(
    pre: CircuitInputState,
    post: CircuitInputState,
    call: crate::exec_step::Call,
) -> bool {
    let callee = call.address;
    let caller = call.caller_address;
    let fee_n = pre.tx.gas_price.as_nat() * pre.tx.gas + pre.tx.l1_fee.as_nat();
    let v = pre.tx.value.as_nat() as int;
    &&& post.sdb.spec_warm_account(caller)
    &&& post.sdb.spec_warm_account(callee)
    &&& (callee != caller ==> post.sdb.db_read((DbKey::AccountNonce { address: caller }))
        == pre.tx.nonce + 1)
    &&& (caller != callee ==> post.sdb.db_read((DbKey::AccountBalance { address: caller }))
        == pre.sdb.spec_account(caller).balance.as_nat() - fee_n - v && post.sdb.db_read((
    DbKey::AccountBalance { address: callee })) == pre.sdb.spec_account(
        callee,
    ).balance.as_nat() + v)
    &&& (caller == callee ==> post.sdb.db_read((DbKey::AccountBalance { address: caller }))
        == pre.sdb.spec_account(caller).balance.as_nat() - fee_n)
}

/// Assembles the database half of the prologue layout.
#[verifier::rlimit(100)]
proof fn lemma_begin_layout_db(
    pre: CircuitInputState,
    st1: CircuitInputState,
    st2: CircuitInputState,
    st3: CircuitInputState,
    st4: CircuitInputState,
    s1: ExecStep,
    trace: Trace,
    call: crate::exec_step::Call,
    precomp: bool,
    empty_h: bool,
)
    requires
        call.is_create == pre.tx.is_create,
        st1.tx == pre.tx,
        st2.tx == pre.tx,
        open_prologue_post(pre, st1, s1, call),
        settle_transfer_post(st1, st2, precomp, empty_h, call),
        establish_frame_post(st2, st3, call, pre.tx.nonce, precomp, empty_h),
        st4.sdb == st3.sdb,
    ensures
        begin_tx_layout_db(pre, st4, call),
{
    reveal(begin_tx_layout_db);
    reveal(open_prologue_post);
    reveal(settle_transfer_post);
    reveal(establish_frame_post);
    let callee = call.address;
    let caller = call.caller_address;
    let fee_n = pre.tx.gas_price.as_nat() * pre.tx.gas + pre.tx.l1_fee.as_nat();
    lemma_begin_db_finals(
        pre,
        st1,
        st2,
        st3,
        caller,
        callee,
        pre.tx.nonce,
        fee_n as int,
        pre.tx.value.as_nat() as int,
    );
    assert(st1.sdb.spec_account(caller).balance.as_nat()
        == pre.sdb.spec_account(caller).balance.as_nat());
    if caller != callee {
        assert(st1.sdb.spec_account(callee).balance.as_nat()
            == pre.sdb.spec_account(callee).balance.as_nat());
    }
}

/// Assembles the operation half of the prologue layout, chaining the
/// pinned operations through the intermediate states.
#[verifier::rlimit(100)]
proof fn lemma_begin_layout_ops(
    pre: CircuitInputState,
    st1: CircuitInputState,
    st2: CircuitInputState,
    st3: CircuitInputState,
    st4: CircuitInputState,
    s1: ExecStep,
    sp: ExecStep,
    sf: ExecStep,
    trace: Trace,
    call: crate::exec_step::Call,
    precomp: bool,
    empty_h: bool,
)
    requires
        call.is_create == pre.tx.is_create,
        st1.tx == pre.tx,
        st2.tx == pre.tx,
        st3.spec_call().call_id == call.call_id,
        st1.block.sha3_inputs@ == pre.block.sha3_inputs@,
        st4.block.sha3_inputs@ == st3.block.sha3_inputs@,
        st4.ops().len() == st3.ops().len() + trace.global_memory@.len()
            + trace.globals@.len() + trace.function_calls@[0].num_locals,
        forall|j: int| 0 <= j < st3.ops().len() ==> #[trigger] st4.ops()[j] == st3.ops()[j],
        open_prologue_post(pre, st1, s1, call),
        settle_transfer_post(st1, st2, precomp, empty_h, call),
        establish_frame_post(st2, st3, call, pre.tx.nonce, precomp, empty_h),
        init_interpreter_post(st3, st4, sp, sf, trace),
    ensures
        begin_tx_layout_ops(pre, st4, trace, call),
{
    reveal(begin_tx_layout_ops);
    reveal(open_prologue_post);
    reveal(settle_transfer_post);
    reveal(establish_frame_post);
    reveal(init_interpreter_post);
    let callee = call.address;
    let caller = call.caller_address;
    let exists_at = begin_callee_exists_at(pre, call);
    let has_read: int = if !precomp && !call.is_create {
        1int
    } else {
        0int
    };
    let t: int = 1 + if pre.tx.value.as_nat() == 0 {
        0int
    } else {
        2int
    };
    let frame_n: int = if pre.tx.is_create {
        14int
    } else if !precomp && !(if pre.tx.is_create {
        false
    } else if exists_at {
        call.code_hash == spec_empty_code_hash()
    } else {
        true
    }) {
        13int
    } else {
        0int
    };
    let base_s = pre.ops().len() as int + 7;
    let base_c = base_s + has_read + t;
    let base_m = base_c + frame_n;
    let kbc = DbKey::AccountBalance { address: caller };
    assert(st1.sdb.db_read(kbc) == pre.sdb.db_read(kbc));
    assert(st1.sdb.spec_account(caller).balance.as_nat()
        == pre.sdb.spec_account(caller).balance.as_nat());
    assert(st1.ops().len() == base_s);
    assert(st2.ops().len() == base_c);
    assert(st3.ops().len() == base_m);
    assert(st2.ops()[pre.ops().len() as int] == st1.ops()[pre.ops().len() as int]);
    assert(st3.ops()[pre.ops().len() as int] == st2.ops()[pre.ops().len() as int]);
    assert(st4.ops()[pre.ops().len() as int] == st3.ops()[pre.ops().len() as int]);
    assert forall|j: int| 0 <= j < base_s implies #[trigger] st4.ops()[j] == st1.ops()[j] by {
        assert(st2.ops()[j] == st1.ops()[j]);
        assert(st3.ops()[j] == st2.ops()[j]);
        assert(st4.ops()[j] == st3.ops()[j]);
    }
    if has_read == 1 {
        assert(st3.ops()[base_s] == st2.ops()[base_s]);
        assert(st4.ops()[base_s] == st3.ops()[base_s]);
    }
    assert(st3.ops()[base_s + has_read] == st2.ops()[base_s + has_read]);
    assert(st4.ops()[base_s + has_read] == st3.ops()[base_s + has_read]);
    if call.is_create {
        assert(st4.ops()[base_c] == st3.ops()[base_c]);
        assert(st4.ops()[base_c + 3] == st3.ops()[base_c + 3]);
    }
    if !call.is_create && frame_n == 13 {
        assert(st4.ops()[base_c + 2] == st3.ops()[base_c + 2]);
    }
}

/// Assembles the whole prologue layout from the postconditions of its
/// four phases.
proof fn lemma_begin_layout(
    pre: CircuitInputState,
    st1: CircuitInputState,
    st2: CircuitInputState,
    st3: CircuitInputState,
    st4: CircuitInputState,
    s1: ExecStep,
    sp: ExecStep,
    sf: ExecStep,
    trace: Trace,
    call: crate::exec_step::Call,
    precomp: bool,
    empty_h: bool,
)
    requires
        call.is_create == pre.tx.is_create,
        st1.tx == pre.tx,
        st2.tx == pre.tx,
        st3.spec_call().call_id == call.call_id,
        st1.block.sha3_inputs@ == pre.block.sha3_inputs@,
        st4.block.sha3_inputs@ == st3.block.sha3_inputs@,
        st4.sdb == st3.sdb,
        st4.ops().len() == st3.ops().len() + trace.global_memory@.len()
            + trace.globals@.len() + trace.function_calls@[0].num_locals,
        forall|j: int| 0 <= j < st3.ops().len() ==> #[trigger] st4.ops()[j] == st3.ops()[j],
        open_prologue_post(pre, st1, s1, call),
        settle_transfer_post(st1, st2, precomp, empty_h, call),
        establish_frame_post(st2, st3, call, pre.tx.nonce, precomp, empty_h),
        init_interpreter_post(st3, st4, sp, sf, trace),
    ensures
        begin_tx_layout(pre, st4, trace, call),
{
    lemma_begin_layout_db(pre, st1, st2, st3, st4, s1, trace, call, precomp, empty_h);
    lemma_begin_layout_ops(pre, st1, st2, st3, st4, s1, sp, sf, trace, call, precomp, empty_h);
}

/// The prologue of a transaction: the context-establishing call-context
/// writes, the caller's nonce bump, access-list warm-up, intrinsic gas,
/// the callee code-hash read, the value-and-fee transfer, the callee frame
/// establishment, and the interpreter's memory, global and locals
/// initialization.  Returns the synthetic first witness row.
#[verifier::rlimit(100)]
#[verifier::spinoff_prover]
pub fn gen_begin_tx_ops(state: &mut CircuitInputState, geth_trace: &Trace) -> (r: Result<
    ExecStep,
    Error,
>)
    requires
        old(state).wf(),
        old(state).call_stack@.len() > 0,
        old(state).ops().len() + old(state).call_stack@.last().reversible@.len()
            + geth_trace.global_memory@.len() + geth_trace.globals@.len() + 2200 < usize::MAX,
        old(state).tx.input@.len() < 0x1_0000_0000,
        old(state).tx.nonce < u64::MAX,
        old(state).tx_id <= 0xffff_ffff,
        old(state).spec_call().is_create == old(state).tx.is_create,
    ensures
        final(state).wf(),
        match r {
            Ok(s) => {
                let call = old(state).spec_call();
                &&& s.exec_state == ExecState::BeginTx
                &&& final(state).ops().len() >= old(state).ops().len() + 5
                &&& s.error.is_none()
                &&& s.gas_left == old(state).tx.gas
                // the prologue's gas cost follows the trace (the intrinsic
                // cost is computed first and then replaced, as the
                // interpreter actually charges)
                &&& s.gas_cost == if geth_trace.steps@.len() == 0 {
                    geth_trace.gas
                } else {
                    (old(state).tx.gas - geth_trace.steps@[0].gas) as u64
                }
                &&& s.function_index == geth_trace.function_calls@[0].fn_index
                &&& s.num_locals == geth_trace.function_calls@[0].num_locals
                &&& s.max_stack_height == geth_trace.function_calls@[0].max_stack_height
                &&& s.stack_size == geth_trace.function_calls@[0].num_locals
                &&& (!(1 <= call.address.as_nat() <= 9 && !call.is_success)
                    ==> begin_tx_layout(*old(state), *final(state), *geth_trace, call))
            },
            Err(_) => true,
        },
        r.is_ok() <==> begin_tx_ok(*old(state), *geth_trace),
{
    let (mut exec_step, call) = match open_prologue(state, geth_trace) {
        Ok(v) => v,
        Err(e) => { return Err(e); },
    };
    let ghost st1 = *state;
    let ghost gs1 = exec_step;
    let caller_address = call.caller_address;
    let nonce_prev = state.tx.nonce;

    let (is_precompile, is_empty_code_hash) = match settle_transfer(state, &mut exec_step, &call)
    {
        Ok(flags) => flags,
        Err(e) => { return Err(e); },
    };
    let ghost st2 = *state;
    match establish_frame(state, &mut exec_step, &call, nonce_prev, is_precompile,
        is_empty_code_hash) {
        Ok(()) => (),
        Err(e) => { return Err(e); },
    }
    let ghost st3 = *state;

    // the prologue's gas cost as the trace reports it
    proof {
        assert(state.tx == old(state).tx);
    }
    exec_step.gas_cost = if geth_trace.steps.len() == 0 {
        geth_trace.gas
    } else {
        if geth_trace.steps[0].gas > state.tx.gas {
            return Err(Error::StateValueMismatch);
        }
        state.tx.gas - geth_trace.steps[0].gas
    };

    // interpreter initialization: global memory, globals, and zeroed locals
    proof {
        assert(exec_step.stack_size == 0);
    }
    let ghost gsp = exec_step;
    match init_interpreter(state, &mut exec_step, geth_trace) {
        Ok(()) => (),
        Err(e) => { return Err(e); },
    }
    proof {
        assert(st1.spec_call() == old(state).spec_call());
        assert(st2.spec_call() == st1.spec_call());
        assert(st3.spec_call() == st2.spec_call());
        assert(st3.spec_call().call_id == call.call_id);
        lemma_begin_layout(
            *old(state),
            st1,
            st2,
            st3,
            *state,
            gs1,
            gsp,
            exec_step,
            *geth_trace,
            call,
            is_precompile,
            is_empty_code_hash,
        );
    }

    // a failed precompile call reverts here: no later opcode will
    if is_precompile && !call.is_success {
        state.handle_reversion(&mut exec_step);
    }

    Ok(exec_step)
}

/// The empty code hash as a word constant.
pub open spec fn spec_empty_code_hash() -> Word {
    Word {
        l0: 0x7bfa_d804_5d85_a470,
        l1: 0xe500_b653_ca82_273b,
        l2: 0x927e_7db2_dcc7_03c0,
        l3: 0xc5d2_4601_86f7_233c,
    }
}

/// Whether the callee "exists": it has a nonzero field, or is a precompile.
pub open spec fn spec_callee_exists(st: CircuitInputState, callee: crate::word::Address) -> bool {
    let acct = st.sdb.spec_account(callee);
    !(acct.nonce == 0 && acct.balance.as_nat() == 0 && acct.code_hash.as_nat() == 0) || (1
        <= callee.as_nat() <= 9)
}

/// Exactly when the callee settlement succeeds: no creation collision, a
/// consistent callee code hash, a representable up-front fee, and a
/// sufficient caller balance.
pub open spec fn settle_callee_ok(st: CircuitInputState, call: crate::exec_step::Call) -> bool {
    let big: int =
        0x1_0000_0000_0000_0000_0000_0000_0000_0000_0000_0000_0000_0000_0000_0000_0000_0000int;
    let callee = call.address;
    let caller = call.caller_address;
    let acct = st.sdb.spec_account(callee);
    let precomp = 1 <= callee.as_nat() <= 9;
    let fee_n = st.tx.gas_price.as_nat() * st.tx.gas + st.tx.l1_fee.as_nat();
    &&& (st.tx.is_create ==> !((acct.code_hash.as_nat() != 0 && acct.code_hash
        != spec_empty_code_hash()) || acct.nonce != 0))
    &&& (!st.tx.is_create && spec_callee_exists(st, callee) && !precomp ==> acct.code_hash
        == call.code_hash)
    &&& st.tx.gas_price.as_nat() * st.tx.gas < big
    &&& fee_n < big
    &&& fee_n + st.tx.value.as_nat() <= st.sdb.spec_account(caller).balance.as_nat()
    &&& (caller != callee && st.tx.value.as_nat() > 0 ==> st.sdb.spec_account(
        callee,
    ).balance.as_nat() + st.tx.value.as_nat() < big)
}

/// The callee's nonce as the settlement sees it: bumped past the
/// transaction's when the callee is the caller itself.
pub open spec fn spec_nonce_at_settle(st: CircuitInputState, call: crate::exec_step::Call) -> int {
    if call.address == call.caller_address {
        st.tx.nonce + 1
    } else {
        st.sdb.spec_account(call.address).nonce as int
    }
}

/// Whether the callee "exists" as the settlement will see it, phrased
/// over the prologue's entry state (the caller's nonce bump accounted for
/// when the callee is the caller).
pub open spec fn begin_callee_exists_at(st: CircuitInputState, call: crate::exec_step::Call) -> bool {
    let acct = st.sdb.spec_account(call.address);
    !(spec_nonce_at_settle(st, call) == 0 && acct.balance.as_nat() == 0 && acct.code_hash.as_nat()
        == 0) || (1 <= call.address.as_nat() <= 9)
}

/// The settlement conditions, phrased over the prologue's entry state: the
/// caller's nonce bump is accounted for where the callee is the caller.
pub open spec fn begin_settle_ok(st: CircuitInputState, call: crate::exec_step::Call) -> bool {
    let big: int =
        0x1_0000_0000_0000_0000_0000_0000_0000_0000_0000_0000_0000_0000_0000_0000_0000_0000int;
    let callee = call.address;
    let caller = call.caller_address;
    let acct = st.sdb.spec_account(callee);
    let nonce_at = spec_nonce_at_settle(st, call);
    let precomp = 1 <= callee.as_nat() <= 9;
    let exists_at = !(nonce_at == 0 && acct.balance.as_nat() == 0 && acct.code_hash.as_nat()
        == 0) || precomp;
    let fee_n = st.tx.gas_price.as_nat() * st.tx.gas + st.tx.l1_fee.as_nat();
    &&& (st.tx.is_create ==> !((acct.code_hash.as_nat() != 0 && acct.code_hash
        != spec_empty_code_hash()) || nonce_at != 0))
    &&& (!st.tx.is_create && exists_at && !precomp ==> acct.code_hash == call.code_hash)
    &&& st.tx.gas_price.as_nat() * st.tx.gas < big
    &&& fee_n < big
    &&& fee_n + st.tx.value.as_nat() <= st.sdb.spec_account(caller).balance.as_nat()
    &&& (caller != callee && st.tx.value.as_nat() > 0 ==> acct.balance.as_nat()
        + st.tx.value.as_nat() < big)
}

/// The number of operations the callee settlement appends, phrased over the
/// prologue's entry state.
pub open spec fn begin_settle_count(st: CircuitInputState, call: crate::exec_step::Call) -> int {
    let callee = call.address;
    let acct = st.sdb.spec_account(callee);
    let nonce_at = spec_nonce_at_settle(st, call);
    let precomp = 1 <= callee.as_nat() <= 9;
    let exists_at = !(nonce_at == 0 && acct.balance.as_nat() == 0 && acct.code_hash.as_nat()
        == 0) || precomp;
    let empty_h = if st.tx.is_create {
        false
    } else if exists_at {
        call.code_hash == spec_empty_code_hash()
    } else {
        true
    };
    let has_read: int = if !precomp && !call.is_create {
        1int
    } else {
        0int
    };
    let t: int = 1 + if st.tx.value.as_nat() == 0 {
        0int
    } else {
        2int
    };
    let frame_n: int = if st.tx.is_create {
        14int
    } else if !precomp && !empty_h {
        13int
    } else {
        0int
    };
    has_read + t + frame_n
}

/// Exactly when the whole prologue succeeds.
pub open spec fn begin_tx_ok(st: CircuitInputState, trace: Trace) -> bool {
    let call = st.spec_call();
    &&& st.sdb.spec_account(call.caller_address).nonce <= st.tx.nonce
    &&& begin_settle_ok(st, call)
    &&& (trace.steps@.len() >= 1 ==> trace.steps@[0].gas <= st.tx.gas)
    &&& init_ok(trace)
}

/// The callee side of the prologue: collision detection for creation, the
/// callee code-hash read, the value-and-fee transfer, the contract-address
/// preimage registration, and the call-context writes establishing the
/// callee's frame.
/// The check-and-transfer half of the callee settlement: collision
/// detection, the conditional code-hash read, and the value-plus-fee
/// transfer.  Returns the precompile and empty-code-hash flags the frame
/// establishment branches on.
#[verifier::rlimit(100)]
/// The settlement phase's full postcondition, keyed by the returned
/// precompile and empty-code-hash flags.
#[verifier::opaque]
pub open spec fn settle_transfer_post(
    pre: CircuitInputState,
    post: CircuitInputState,
    precomp: bool,
    empty_h: bool,
    call: crate::exec_step::Call,
) -> bool {
                let base = pre.ops().len() as int;
                let callee = call.address;
                let caller = call.caller_address;
                let has_read: int = if !precomp && !call.is_create {
                    1int
                } else {
                    0int
                };
                let fee_n = pre.tx.gas_price.as_nat() * pre.tx.gas + pre.tx.l1_fee.as_nat();
                let v = pre.tx.value.as_nat();
                let t: int = 1 + if v == 0 {
                    0int
                } else {
                    2int
                };
                let exists0 = spec_callee_exists(pre, callee);
                let bal_caller = pre.sdb.spec_account(caller).balance.as_nat() as int;
                let bal_callee = pre.sdb.spec_account(callee).balance.as_nat() as int;
                &&& precomp == (1 <= callee.as_nat() <= 9)
                &&& empty_h == if pre.tx.is_create {
                    false
                } else if exists0 {
                    call.code_hash == spec_empty_code_hash()
                } else {
                    true
                }
                &&& post.ops().len() == base + has_read + t
                &&& (forall|j: int|
                    0 <= j < base ==> #[trigger] post.ops()[j] == pre.ops()[j])
                // the callee code-hash read, skipped for precompiles and creation
                &&& (has_read == 1 ==> post.ops()[base].rwc == base + 1 && post.ops()[base].rw == RW::Read && post.ops()[base].op == (OpEnum::Account {
                    address: callee,
                    field: AccountField::CodeHash,
                    value: if exists0 {
                        call.code_hash
                    } else {
                        Word { l0: 0, l1: 0, l2: 0, l3: 0 }
                    },
                    value_prev: if exists0 {
                        call.code_hash
                    } else {
                        Word { l0: 0, l1: 0, l2: 0, l3: 0 }
                    },
                }))
                // the up-front fee leaves the caller
                &&& post.ops()[base + has_read].rwc == base + has_read + 1
                &&& post.ops()[base + has_read].rw == RW::Write
                &&& (post.ops()[base + has_read].op matches OpEnum::Account {
                    address,
                    field: AccountField::Balance,
                    value,
                    value_prev,
                } && address == caller && value_prev.as_nat() == bal_caller && value.as_nat()
                    == bal_caller - fee_n)
                // the settled balances
                &&& (caller != callee ==> post.sdb.db_read(DbKey::AccountBalance {
                    address: caller,
                }) == bal_caller - fee_n - v && post.sdb.db_read(DbKey::AccountBalance {
                    address: callee,
                }) == bal_callee + v)
                &&& (caller == callee ==> post.sdb.db_read(DbKey::AccountBalance {
                    address: caller,
                }) == bal_caller - fee_n)
                &&& (call.is_create ==> post.sdb.db_read(DbKey::AccountNonce {
                    address: callee,
                }) == 0)
                &&& (forall|k: DbKey|
                    k != (DbKey::AccountBalance { address: caller })
                        && !crate::state_db::db_key_of_account(k, callee)
                        ==> #[trigger] post.sdb.db_read(k) == pre.sdb.db_read(k))
                &&& post.block.sha3_inputs@ == pre.block.sha3_inputs@
}

fn settle_transfer(
    state: &mut CircuitInputState,
    step: &mut ExecStep,
    call: &crate::exec_step::Call,
) -> (r: Result<(bool, bool), Error>)
    requires
        old(state).wf(),
        old(state).call_stack@.len() > 0,
        old(state).ops().len() + old(state).call_stack@.last().reversible@.len() + 100
            < usize::MAX,
        call.is_create == old(state).tx.is_create,
    ensures
        final(state).wf(),
        crate::state::scalar_frame(*old(state), *final(state)),
        final(state).calls@ == old(state).calls@,
        final(state).call_stack@.len() == old(state).call_stack@.len(),
        final(state).call_stack@.last().call_index == old(state).call_stack@.last().call_index,
        final(state).call_stack@.last().reversible@.len()
            <= old(state).call_stack@.last().reversible@.len() + 2,
        crate::state::step_fields_unchanged(*old(step), *final(step)),
        r.is_ok() <==> settle_callee_ok(*old(state), *call),
        match r {
            Ok((precomp, empty_h)) => precomp == (1 <= call.address.as_nat() <= 9) && final(state).ops().len() == old(state).ops().len() + (
            if !(1 <= call.address.as_nat() <= 9) && !call.is_create {
                1int
            } else {
                0int
            }) + 1 + (if old(state).tx.value.as_nat() == 0 {
                0int
            } else {
                2int
            }) && (call.is_create ==> final(state).sdb.db_read((DbKey::AccountNonce {
                address: call.address,
            })) == 0) && settle_transfer_post(
                *old(state),
                *final(state),
                precomp,
                empty_h,
                *call,
            ),
            Err(_) => true,
        },
{
    proof {
        reveal(settle_transfer_post);
    }
    let caller_address = call.caller_address;
    let callee_account = state.sdb.get_account(&call.address);
    let is_precompile = call.address.is_precompiled();
    let empty_hash = empty_code_hash();
    let callee_is_empty = callee_account.nonce == 0 && callee_account.balance.is_zero()
        && callee_account.code_hash.is_zero();
    let callee_exists = !callee_is_empty || is_precompile;
    if !callee_exists && state.tx.value.is_zero() {
        state.sdb.destruct_account(call.address);
    }
    if state.tx.is_create && ((!callee_account.code_hash.is_zero() && callee_account.code_hash
        != empty_hash) || callee_account.nonce != 0) {
        return Err(Error::DeploymentCollision);
    }
    let (callee_code_hash, is_empty_code_hash) = if state.tx.is_create {
        (call.code_hash, false)
    } else if callee_exists {
        if callee_account.code_hash != call.code_hash && !is_precompile {
            return Err(Error::StateValueMismatch);
        }
        (call.code_hash, call.code_hash == empty_hash)
    } else {
        (Word::zero(), true)
    };
    if !is_precompile && !call.is_create {
        match state.account_read(step, call.address, AccountField::CodeHash, callee_code_hash) {
            Ok(()) => (),
            Err(e) => { return Err(e); },
        }
    }

    // transfer the value together with the up-front fee
    let fee_gas = match word_mul_u64(&state.tx.gas_price, state.tx.gas) {
        Some(w) => w,
        None => { return Err(Error::ArithmeticOverflow); },
    };
    let fee = match word_add(&fee_gas, &state.tx.l1_fee) {
        Some(w) => w,
        None => { return Err(Error::ArithmeticOverflow); },
    };
    let tx_value = state.tx.value;
    match state.transfer_with_fee(step, caller_address, call.address, tx_value, Some(fee)) {
        Ok(()) => (),
        Err(e) => { return Err(e); },
    }
    Ok((is_precompile, is_empty_code_hash))
}

/// The frame-establishment phase's full postcondition.
#[verifier::opaque]
pub open spec fn establish_frame_post(
    pre: CircuitInputState,
    post: CircuitInputState,
    call: crate::exec_step::Call,
    nonce_prev: u64,
    is_precompile: bool,
    is_empty_code_hash: bool,
) -> bool {
    ({
            let base = pre.ops().len() as int;
            let callee = call.address;
            let caller = call.caller_address;
            let frame_n: int = if call.is_create {
                14int
            } else if !is_precompile && !is_empty_code_hash {
                13int
            } else {
                0int
            };
            &&& post.ops().len() == base + frame_n
            &&& (forall|j: int|
                0 <= j < base ==> #[trigger] post.ops()[j] == pre.ops()[j])
            &&& (call.is_create ==> post.ops()[base] == (Operation {
                rwc: (base + 1) as usize,
                rw: RW::Write,
                op: OpEnum::Account {
                    address: callee,
                    field: AccountField::Nonce,
                    value: Word { l0: 1, l1: 0, l2: 0, l3: 0 },
                    value_prev: Word { l0: 0, l1: 0, l2: 0, l3: 0 },
                },
            }) && post.ops()[base + 3].op == (OpEnum::CallContext {
                call_id: call.call_id,
                field: CallContextField::CalleeAddress,
                value: {
                    let (dh, dm, dl) = crate::externals::contract_address_of(
                        caller.hi,
                        caller.mid,
                        caller.lo,
                        nonce_prev,
                    );
                    Word { l0: dl, l1: dm, l2: dh as u64, l3: 0 }
                },
            }) && post.sdb.db_read(DbKey::AccountNonce { address: callee }) == 1)
            &&& (!call.is_create && frame_n == 13 ==> post.ops()[base + 2].op
                == (OpEnum::CallContext {
                call_id: call.call_id,
                field: CallContextField::CalleeAddress,
                value: Word { l0: callee.lo, l1: callee.mid, l2: callee.hi as u64, l3: 0 },
            }))
            &&& (forall|k: DbKey|
                k != (DbKey::AccountNonce { address: callee })
                    ==> #[trigger] post.sdb.db_read(k) == pre.sdb.db_read(k))
            &&& (!call.is_create ==> post.sdb == pre.sdb
                && post.block.sha3_inputs@ == pre.block.sha3_inputs@)
            &&& (call.is_create ==> post.block.sha3_inputs@.len()
                == pre.block.sha3_inputs@.len() + 1
                && post.block.sha3_inputs@.last()@
                == crate::externals::rlp_address_nonce(caller, nonce_prev))
        })
}

/// The frame half of the callee settlement: for creation, registers the
/// address-derivation preimage, seeds the created account's nonce
/// reversibly and establishes the frame at the derived address; for a
/// plain call to real code, establishes the frame at the callee.
#[verifier::rlimit(100)]
fn establish_frame(
    state: &mut CircuitInputState,
    step: &mut ExecStep,
    call: &crate::exec_step::Call,
    nonce_prev: u64,
    is_precompile: bool,
    is_empty_code_hash: bool,
) -> (r: Result<(), Error>)
    requires
        old(state).wf(),
        old(state).call_stack@.len() > 0,
        old(state).ops().len() + old(state).call_stack@.last().reversible@.len() + 60
            < usize::MAX,
        call.is_create == old(state).tx.is_create,
        call.is_create ==> old(state).sdb.db_read((DbKey::AccountNonce {
            address: call.address,
        })) == 0,
    ensures
        final(state).wf(),
        crate::state::scalar_frame(*old(state), *final(state)) || call.is_create,
        final(state).calls@ == old(state).calls@,
        final(state).call_stack@.len() == old(state).call_stack@.len(),
        final(state).call_stack@.last().call_index == old(state).call_stack@.last().call_index,
        final(state).call_stack@.last().reversible@.len()
            <= old(state).call_stack@.last().reversible@.len() + 1,
        final(state).tx == old(state).tx,
        final(state).tx_id == old(state).tx_id,
        final(state).ops().len() == old(state).ops().len() + (if call.is_create {
            14int
        } else if !is_precompile && !is_empty_code_hash {
            13int
        } else {
            0int
        }),
        crate::state::step_fields_unchanged(*old(step), *final(step)),
        r.is_ok(),
        establish_frame_post(*old(state), *final(state), *call, nonce_prev, is_precompile, is_empty_code_hash),
{
    proof {
        reveal(establish_frame_post);
    }
    let caller_address = call.caller_address;
    if state.tx.is_create {
        let preimage = crate::externals::rlp_address_nonce_bytes(&caller_address, nonce_prev);
        state.block.sha3_inputs.push(preimage);
        match state.push_op_reversible(
            step,
            OpEnum::Account {
                address: call.address,
                field: AccountField::Nonce,
                value: Word::one(),
                value_prev: Word::zero(),
            },
        ) {
            Ok(()) => (),
            Err(e) => { return Err(e); },
        }
        let created = crate::externals::contract_address(&caller_address, nonce_prev);
        write_callee_context(state, step, call, created.to_word(), call.code_hash);
    } else if !is_precompile && !is_empty_code_hash {
        write_callee_context(state, step, call, call.address.to_word(), call.code_hash);
    }
    Ok(())
}

/// Brings the caller's nonce up to the transaction's by sequential
/// increments, then records the transaction's own increment; returns the
/// nonce the transaction saw.
fn bump_caller_nonce(
    state: &mut CircuitInputState,
    step: &mut ExecStep,
    caller_address: crate::word::Address,
) -> (r: Result<u64, Error>)
    requires
        old(state).wf(),
        old(state).call_stack@.len() > 0,
        old(state).ops().len() < usize::MAX - 2,
        old(state).tx.nonce < u64::MAX,
    ensures
        final(state).wf(),
        crate::state::scalar_frame(*old(state), *final(state)),
        final(state).call_stack@ == old(state).call_stack@,
        final(state).calls@ == old(state).calls@,
        crate::state::step_fields_unchanged(*old(step), *final(step)),
        r.is_ok() <==> old(state).sdb.spec_account(caller_address).nonce <= old(state).tx.nonce,
        match r {
            Ok(np) => {
                &&& np == old(state).tx.nonce
                &&& final(state).sdb.spec_account(caller_address).nonce == np + 1
                &&& final(state).ops().len() == old(state).ops().len() + 1
                &&& (forall|j: int|
                    0 <= j < old(state).ops().len() ==> #[trigger] final(state).ops()[j] == old(state).ops()[j])
                &&& final(state).ops()[old(state).ops().len() as int] == (Operation {
                    rwc: (old(state).ops().len() + 1) as usize,
                    rw: RW::Write,
                    op: OpEnum::Account {
                        address: caller_address,
                        field: AccountField::Nonce,
                        value: Word { l0: (old(state).tx.nonce + 1) as u64, l1: 0, l2: 0, l3: 0 },
                        value_prev: Word { l0: old(state).tx.nonce, l1: 0, l2: 0, l3: 0 },
                    },
                })
                &&& final(step).bus_mapping_instance@ == old(step).bus_mapping_instance@.push(
                    old(state).ops().len() as usize,
                )
                &&& crate::state::word_frame(
                    old(state).sdb,
                    final(state).sdb,
                    DbKey::AccountNonce { address: caller_address },
                )
                &&& (forall|k: DbKey|
                    k != (DbKey::AccountNonce { address: caller_address })
                        ==> #[trigger] final(state).sdb.db_read(k) == old(state).sdb.db_read(k))
                &&& (forall|b: crate::word::Address|
                    #[trigger] crate::state_db::lookup(final(state).sdb.accounts@, b).is_some()
                        <==> crate::state_db::lookup(old(state).sdb.accounts@, b).is_some() || b
                        == caller_address)
            },
            Err(_) => final(state).sdb == old(state).sdb && final(state).ops() == old(state).ops() && final(step).bus_mapping_instance@ == old(step).bus_mapping_instance@,
        },
{
    let mut nonce_prev = state.sdb.get_account(&caller_address).nonce;
    if nonce_prev > state.tx.nonce {
        return Err(Error::StateValueMismatch);
    }
    while nonce_prev < state.tx.nonce
        invariant
            state.wf(),
            nonce_prev == state.sdb.spec_account(caller_address).nonce,
            nonce_prev <= state.tx.nonce,
            state.tx.nonce < u64::MAX,
            crate::state::scalar_frame(*old(state), *state),
            state.container == old(state).container,
            state.call_stack@ == old(state).call_stack@,
            state.calls@ == old(state).calls@,
            crate::state::word_frame(
                old(state).sdb,
                state.sdb,
                DbKey::AccountNonce { address: caller_address },
            ),
            forall|k: DbKey|
                k != (DbKey::AccountNonce { address: caller_address })
                    ==> #[trigger] state.sdb.db_read(k) == old(state).sdb.db_read(k),
            forall|b: crate::word::Address|
                b != caller_address ==> #[trigger] crate::state_db::lookup(
                    state.sdb.accounts@,
                    b,
                ) == crate::state_db::lookup(old(state).sdb.accounts@, b),
        decreases state.tx.nonce - nonce_prev,
    {
        let ghost mid = state.sdb;
        nonce_prev = state.sdb.increase_nonce(&caller_address);
        proof {
            assert forall|k: DbKey|
                k != (DbKey::AccountNonce { address: caller_address }) implies #[trigger] state.sdb.db_read(k)
                == mid.db_read(k) by {}
            assert forall|b: crate::word::Address, f: AccountField|
                crate::state::account_field_key(b, f) != (DbKey::AccountNonce {
                    address: caller_address,
                }) implies #[trigger] crate::state::spec_account_field(state.sdb, b, f)
                == crate::state::spec_account_field(old(state).sdb, b, f) by {
                assert(crate::state::spec_account_field(state.sdb, b, f)
                    == crate::state::spec_account_field(mid, b, f));
                assert(crate::state::spec_account_field(mid, b, f)
                    == crate::state::spec_account_field(old(state).sdb, b, f));
            }
            assert forall|b: crate::word::Address, k2: Word| true implies
                #[trigger] state.sdb.spec_storage_word(b, k2) == old(state).sdb.spec_storage_word(
                b,
                k2,
            ) by {
                assert(state.sdb.storage@ == mid.storage@);
                assert(mid.spec_storage_word(b, k2) == old(state).sdb.spec_storage_word(b, k2));
            }
        }
    }
    match state.account_write(
        step,
        caller_address,
        AccountField::Nonce,
        Word::from_u64(nonce_prev + 1),
        Word::from_u64(nonce_prev),
    ) {
        Ok(()) => (),
        Err(_) => { return Err(Error::StateValueMismatch); },
    }
    Ok(nonce_prev)
}

/// The calldata portion of the intrinsic gas: four per zero byte, sixteen
/// per nonzero byte.
pub open spec fn spec_call_data_cost(s: Seq<u8>) -> int
    decreases s.len(),
{
    if s.len() == 0 {
        0
    } else {
        spec_call_data_cost(s.drop_last()) + if s.last() == 0 {
            4int
        } else {
            16int
        }
    }
}

/// Computes the calldata portion of the intrinsic gas.
pub fn call_data_cost(input: &Vec<u8>) -> (r: u64)
    requires
        input@.len() < 0x1_0000_0000,
    ensures
        r == spec_call_data_cost(input@),
        r <= 16 * input@.len(),
{
    let mut cost: u64 = 0;
    let n = input.len();
    proof {
        assert(input@.take(0) =~= Seq::<u8>::empty());
    }
    for i in 0..n
        invariant
            n == input@.len(),
            n < 0x1_0000_0000,
            cost == spec_call_data_cost(input@.take(i as int)),
            cost <= 16 * i,
    {
        proof {
            assert(input@.take(i + 1).drop_last() =~= input@.take(i as int));
            assert(input@.take(i + 1).last() == input@[i as int]);
        }
        if input[i] == 0 {
            cost = cost + 4;
        } else {
            cost = cost + 16;
        }
    }
    proof {
        assert(input@.take(n as int) =~= input@);
    }
    cost
}

/// The interpreter-initialization operations, pinned as one block: the
/// global memory image written byte by byte from address zero, the global
/// variables, then the entry function's locals zeroed onto the stack.
#[verifier::opaque]
pub open spec fn init_ops_pinned(
    ops: Seq<Operation>,
    base: int,
    trace: Trace,
    cid: usize,
) -> bool {
    let mlen = trace.global_memory@.len() as int;
    let glen = trace.globals@.len() as int;
    let entry = trace.function_calls@[0];
    &&& (forall|i: int|
        0 <= i < mlen ==> #[trigger] ops[base + i] == (Operation {
            rwc: (base + 1 + i) as usize,
            rw: RW::Write,
            op: OpEnum::Memory {
                call_id: cid,
                address: i as usize,
                byte: trace.global_memory@[i],
            },
        }))
    &&& (forall|i: int|
        0 <= i < glen ==> #[trigger] ops[base + mlen + i] == (Operation {
            rwc: (base + mlen + 1 + i) as usize,
            rw: RW::Write,
            op: OpEnum::Global {
                call_id: cid,
                index: trace.globals@[i].index,
                value: trace.globals@[i].value,
            },
        }))
    &&& (forall|i: int|
        0 <= i < entry.num_locals ==> #[trigger] ops[base + mlen + glen + i] == (Operation {
            rwc: (base + mlen + glen + 1 + i) as usize,
            rw: RW::Write,
            op: OpEnum::Stack {
                call_id: cid,
                address: (1024 - trace.steps@[0].stack@.len() + (entry.num_locals - 1
                    - i)) as usize,
                value: 0,
            },
        }))
}

/// Exactly when the interpreter initialization succeeds: the trace names
/// an entry function, and its locals fit the first step's stack segment.
pub open spec fn init_ok(trace: Trace) -> bool {
    &&& trace.function_calls@.len() >= 1
    &&& (trace.function_calls@[0].num_locals > 0 ==> trace.steps@.len() >= 1
        && trace.function_calls@[0].num_locals <= trace.steps@[0].stack@.len() <= 1024)
}

/// The interpreter-initialization phase's full postcondition: the pinned
/// memory, global and locals writes and the step's function metadata.
#[verifier::opaque]
pub open spec fn init_interpreter_post(
    pre: CircuitInputState,
    post: CircuitInputState,
    s_pre: ExecStep,
    s: ExecStep,
    trace: Trace,
) -> bool {
                let base = pre.ops().len() as int;
                let mlen = trace.global_memory@.len() as int;
                let glen = trace.globals@.len() as int;
                let entry = trace.function_calls@[0];
                let cid = pre.spec_call().call_id;
                &&& post.ops().len() == base + mlen + glen + entry.num_locals
                &&& init_ops_pinned(post.ops(), base, trace, cid)
                &&& s.function_index == entry.fn_index
                &&& s.num_locals == entry.num_locals
                &&& s.max_stack_height == entry.max_stack_height
                &&& s.stack_size == s_pre.stack_size + entry.num_locals
                &&& post.call_stack@.last().memory@ == trace.global_memory@
                &&& post.call_stack@.last().call_index == pre.call_stack@.last().call_index
}

/// Initializes the interpreter's state for the entry function: the global
/// memory image, the global variables, and the zeroed locals, recorded as
/// memory, global and stack writes; fills the step's function metadata.
fn init_interpreter(state: &mut CircuitInputState, step: &mut ExecStep, geth_trace: &Trace) -> (r:
    Result<(), Error>)
    requires
        old(state).wf(),
        old(state).call_stack@.len() > 0,
        old(state).ops().len() + old(state).call_stack@.last().reversible@.len()
            + geth_trace.global_memory@.len() + geth_trace.globals@.len() + 1100 < usize::MAX,
        old(step).stack_size <= usize::MAX - 0xffff_ffff,
    ensures
        final(state).wf(),
        crate::state::scalar_frame(*old(state), *final(state)),
        final(state).sdb == old(state).sdb,
        final(state).calls@ == old(state).calls@,
        final(state).call_stack@.len() == old(state).call_stack@.len(),
        final(state).call_stack@.last().reversible@ == old(state).call_stack@.last().reversible@,
        final(state).ops().len() >= old(state).ops().len(),
        forall|j: int|
            0 <= j < old(state).ops().len() ==> #[trigger] final(state).ops()[j] == old(state).ops()[j],
        final(state).ops().len() <= old(state).ops().len() + geth_trace.global_memory@.len()
            + geth_trace.globals@.len() + 1024,
        final(step).exec_state == old(step).exec_state,
        final(step).pc == old(step).pc,
        final(step).gas_left == old(step).gas_left,
        final(step).gas_cost == old(step).gas_cost,
        final(step).call_index == old(step).call_index,
        final(step).rwc_start == old(step).rwc_start,
        final(step).error == old(step).error,
        r.is_ok() <==> init_ok(*geth_trace),
        match r {
            Ok(()) => final(state).ops().len() == old(state).ops().len()
                + geth_trace.global_memory@.len() + geth_trace.globals@.len()
                + geth_trace.function_calls@[0].num_locals && final(step).function_index
                == geth_trace.function_calls@[0].fn_index && final(step).num_locals
                == geth_trace.function_calls@[0].num_locals && final(step).max_stack_height
                == geth_trace.function_calls@[0].max_stack_height && final(step).stack_size
                == old(step).stack_size + geth_trace.function_calls@[0].num_locals
                && init_interpreter_post(
                *old(state),
                *final(state),
                *old(step),
                *final(step),
                *geth_trace,
            ),
            Err(_) => true,
        },
{
    proof {
        reveal(init_ops_pinned);
        reveal(init_interpreter_post);
    }
    let mem_len = geth_trace.global_memory.len();
    let ghost ops_m = state.ops();
    let ghost rev_m = state.call_stack@.last().reversible@;
    for i in 0..mem_len
        invariant
            state.wf(),
            state.call_stack@ == old(state).call_stack@,
            state.call_stack@.len() > 0,
            state.calls@ == old(state).calls@,
            state.sdb == old(state).sdb,
            crate::state::scalar_frame(*old(state), *state),
            mem_len == geth_trace.global_memory@.len(),
            ops_m == old(state).ops(),
            state.ops().len() == ops_m.len() + i,
            forall|j: int| 0 <= j < ops_m.len() ==> #[trigger] state.ops()[j] == ops_m[j],
            forall|j: int|
                0 <= j < i ==> #[trigger] state.ops()[ops_m.len() + j] == (Operation {
                    rwc: (ops_m.len() + 1 + j) as usize,
                    rw: RW::Write,
                    op: OpEnum::Memory {
                        call_id: old(state).spec_call().call_id,
                        address: j as usize,
                        byte: geth_trace.global_memory@[j],
                    },
                }),
            ops_m.len() + rev_m.len() + mem_len + geth_trace.globals@.len() + 1100 < usize::MAX,
            crate::state::step_fields_unchanged(*old(step), *step),
        decreases mem_len - i,
    {
        let byte = geth_trace.global_memory[i];
        match state.memory_write(step, i, byte) {
            Ok(()) => (),
            Err(e) => { return Err(e); },
        }
    }
    let globals_len = geth_trace.globals.len();
    let ghost ops_g = state.ops();
    for i in 0..globals_len
        invariant
            state.wf(),
            state.call_stack@ == old(state).call_stack@,
            state.call_stack@.len() > 0,
            state.calls@ == old(state).calls@,
            state.sdb == old(state).sdb,
            crate::state::scalar_frame(*old(state), *state),
            globals_len == geth_trace.globals@.len(),
            ops_g.len() == old(state).ops().len() + mem_len,
            mem_len == geth_trace.global_memory@.len(),
            forall|j: int| 0 <= j < old(state).ops().len() ==> #[trigger] ops_g[j] == old(state).ops()[j],
            state.ops().len() == ops_g.len() + i,
            forall|j: int| 0 <= j < ops_g.len() ==> #[trigger] state.ops()[j] == ops_g[j],
            forall|j: int|
                0 <= j < i ==> #[trigger] state.ops()[ops_g.len() + j] == (Operation {
                    rwc: (ops_g.len() + 1 + j) as usize,
                    rw: RW::Write,
                    op: OpEnum::Global {
                        call_id: old(state).spec_call().call_id,
                        index: geth_trace.globals@[j].index,
                        value: geth_trace.globals@[j].value,
                    },
                }),
            ops_g.len() + rev_m.len() + globals_len + 1090 < usize::MAX,
            crate::state::step_fields_unchanged(*old(step), *step),
        decreases globals_len - i,
    {
        let g = geth_trace.globals[i];
        match state.global_write(step, g.index, g.value) {
            Ok(()) => (),
            Err(e) => { return Err(e); },
        }
    }

    if geth_trace.function_calls.len() == 0 {
        return Err(Error::IncompleteTrace);
    }
    let entry = geth_trace.function_calls[0];
    if entry.num_locals > 0 {
        if geth_trace.steps.len() == 0 {
            return Err(Error::IncompleteTrace);
        }
        let first = &geth_trace.steps[0];
        if first.stack.len() > 1024 || entry.num_locals as usize > first.stack.len() {
            return Err(Error::StackAddressOutOfBound);
        }
        let locals = entry.num_locals as usize;
        let ghost ops_l = state.ops();
        for i in 0..locals
            invariant
                state.wf(),
                state.call_stack@ == old(state).call_stack@,
                state.call_stack@.len() > 0,
                state.calls@ == old(state).calls@,
                state.sdb == old(state).sdb,
                crate::state::scalar_frame(*old(state), *state),
                locals <= first.stack@.len() <= 1024,
                first == &geth_trace.steps@[0],
                ops_l.len() == old(state).ops().len() + geth_trace.global_memory@.len()
                    + geth_trace.globals@.len(),
                forall|j: int|
                    0 <= j < old(state).ops().len() ==> #[trigger] ops_l[j] == old(state).ops()[j],
                state.ops().len() == ops_l.len() + i,
                forall|j: int| 0 <= j < ops_l.len() ==> #[trigger] state.ops()[j] == ops_l[j],
                forall|j: int|
                    0 <= j < i ==> #[trigger] state.ops()[ops_l.len() + j] == (Operation {
                        rwc: (ops_l.len() + 1 + j) as usize,
                        rw: RW::Write,
                        op: OpEnum::Stack {
                            call_id: old(state).spec_call().call_id,
                            address: (1024 - geth_trace.steps@[0].stack@.len() + (locals - 1
                                - j)) as usize,
                            value: 0,
                        },
                    }),
                ops_l.len() + rev_m.len() + locals + 60 < usize::MAX,
                crate::state::step_fields_unchanged(*old(step), *step),
            decreases locals - i,
        {
            let slot = first.nth_last_filled(locals - i - 1);
            match state.stack_write(step, slot, 0) {
                Ok(()) => (),
                Err(e) => { return Err(e); },
            }
        }
    }
    step.function_index = entry.fn_index;
    step.max_stack_height = entry.max_stack_height;
    step.num_locals = entry.num_locals;
    step.stack_size = step.stack_size + entry.num_locals as usize;

    let mem = crate::opcodes::copy_bytes(&geth_trace.global_memory);
    state.set_call_memory(mem);
    Ok(())
}

/// Writes the thirteen call-context fields that establish the callee's
/// execution frame.
fn write_callee_context(
    state: &mut CircuitInputState,
    step: &mut ExecStep,
    call: &crate::exec_step::Call,
    callee_address: Word,
    code_hash: Word,
)
    requires
        old(state).wf(),
        old(state).ops().len() + 20 < usize::MAX,
    ensures
        final(state).wf(),
        final(state).ops().len() == old(state).ops().len() + 13,
        final(state).ops()[old(state).ops().len() + 2int] == (Operation {
            rwc: (old(state).ops().len() + 3) as usize,
            rw: RW::Write,
            op: OpEnum::CallContext {
                call_id: call.call_id,
                field: CallContextField::CalleeAddress,
                value: callee_address,
            },
        }),
        final(state).sdb == old(state).sdb,
        final(state).call_stack@ == old(state).call_stack@,
        final(state).calls@ == old(state).calls@,
        crate::state::scalar_frame(*old(state), *final(state)),
        final(state).block.sha3_inputs@ == old(state).block.sha3_inputs@,
        crate::state::step_fields_unchanged(*old(step), *final(step)),
        forall|j: int|
            0 <= j < old(state).ops().len() ==> #[trigger] final(state).ops()[j] == old(state).ops()[j],
{
    let call_id = call.call_id;
    state.call_context_write(step, call_id, CallContextField::Depth,
        Word::from_u64(call.depth as u64));
    state.call_context_write(step, call_id, CallContextField::CallerAddress,
        call.caller_address.to_word());
    state.call_context_write(step, call_id, CallContextField::CalleeAddress, callee_address);
    state.call_context_write(step, call_id, CallContextField::CallDataOffset,
        Word::from_u64(call.call_data_offset));
    state.call_context_write(step, call_id, CallContextField::CallDataLength,
        Word::from_u64(call.call_data_length));
    state.call_context_write(step, call_id, CallContextField::Value, call.value);
    let static_flag: u64 = if call.is_static {
        1
    } else {
        0
    };
    state.call_context_write(step, call_id, CallContextField::IsStatic,
        Word::from_u64(static_flag));
    state.call_context_write(step, call_id, CallContextField::LastCalleeId, Word::zero());
    state.call_context_write(step, call_id, CallContextField::LastCalleeReturnDataOffset,
        Word::zero());
    state.call_context_write(step, call_id, CallContextField::LastCalleeReturnDataLength,
        Word::zero());
    state.call_context_write(step, call_id, CallContextField::IsRoot, Word::one());
    let create_flag: u64 = if call.is_create {
        1
    } else {
        0
    };
    state.call_context_write(step, call_id, CallContextField::IsCreate,
        Word::from_u64(create_flag));
    state.call_context_write(step, call_id, CallContextField::CodeHash, code_hash);
}

/// The epilogue of a transaction: reads the context, settles the effective
/// refund, returns unused gas to the caller, rewards the coinbase, writes
/// the receipt fields, and threads the cumulative gas and the next
/// transaction's id.  `gas_left` is the gas remaining after the last step.
/// Settles the gas accounts of the epilogue: returns unused gas plus the
/// effective refund to the caller, then credits the coinbase with the
/// effective tip over the net gas used plus any rollup fee.
/// Returns the caller's unused gas plus the effective refund, in wei.
#[verifier::rlimit(60)]
fn settle_caller(
    state: &mut CircuitInputState,
    step: &mut ExecStep,
    caller: crate::word::Address,
    gas_left: u64,
) -> (r: Result<(), Error>)
    requires
        old(state).wf(),
        old(state).ops().len() + 20 < usize::MAX,
        gas_left <= old(state).tx.gas,
    ensures
        final(state).wf(),
        crate::state::scalar_frame(*old(state), *final(state)),
        final(state).calls@ == old(state).calls@,
        final(state).call_stack@ == old(state).call_stack@,
        crate::state::step_fields_unchanged(*old(step), *final(step)),
        r.is_ok() <==> {
            let big: int =
                0x1_0000_0000_0000_0000_0000_0000_0000_0000_0000_0000_0000_0000_0000_0000_0000_0000int;
            &&& crate::state_db::lookup(old(state).sdb.accounts@, caller).is_some()
            &&& spec_caller_return(*old(state), gas_left) < big
            &&& old(state).sdb.spec_account(caller).balance.as_nat() + spec_caller_return(
                *old(state),
                gas_left,
            ) < big
        },
        match r {
            Ok(()) => {
                let ret = spec_caller_return(*old(state), gas_left);
                let caller_prev = old(state).sdb.spec_account(caller).balance;
                &&& final(state).ops().len() == old(state).ops().len() + 1
                &&& (forall|j: int|
                    0 <= j < old(state).ops().len() ==> #[trigger] final(state).ops()[j] == old(state).ops()[j])
                &&& final(state).ops()[old(state).ops().len() as int].rwc == old(state).ops().len() + 1
                &&& final(state).ops()[old(state).ops().len() as int].rw == RW::Write
                &&& (final(state).ops()[old(state).ops().len() as int].op matches OpEnum::Account {
                    address,
                    field: AccountField::Balance,
                    value,
                    value_prev,
                } && address == caller && value_prev == caller_prev && value.as_nat()
                    == caller_prev.as_nat() + ret)
                &&& final(state).sdb.db_read(DbKey::AccountBalance { address: caller })
                    == caller_prev.as_nat() + ret
                &&& (forall|k: DbKey|
                    k != (DbKey::AccountBalance { address: caller })
                        ==> #[trigger] final(state).sdb.db_read(k) == old(state).sdb.db_read(k))
                &&& crate::state::word_frame(
                    old(state).sdb,
                    final(state).sdb,
                    DbKey::AccountBalance { address: caller },
                )
                &&& (forall|b: crate::word::Address|
                    #[trigger] crate::state_db::lookup(final(state).sdb.accounts@, b).is_some()
                        <==> crate::state_db::lookup(old(state).sdb.accounts@, b).is_some() || b
                        == caller)
                &&& final(step).bus_mapping_instance@ == old(step).bus_mapping_instance@.push(
                    old(state).ops().len() as usize,
                )
            },
            Err(e) => final(state).ops() == old(state).ops() && final(state).sdb == old(
                state,
            ).sdb && final(step).bus_mapping_instance@ == old(step).bus_mapping_instance@ && (
            !crate::state_db::lookup(old(state).sdb.accounts@, caller).is_some() ==> e
                == Error::AccountNotFound(caller)) && (e matches Error::AccountNotFound(a) ==> a
                == caller && !crate::state_db::lookup(old(state).sdb.accounts@, caller).is_some()),
        },
{
    let refund = state.sdb.refund();
    let gas_used = state.tx.gas - gas_left;
    let capped = gas_used / MAX_REFUND_QUOTIENT_OF_GAS_USED;
    let effective_refund: u64 = if refund < capped {
        refund
    } else {
        capped
    };
    if !state.sdb.account_exists(&caller) {
        return Err(Error::AccountNotFound(caller));
    }
    let caller_balance_prev = state.sdb.get_account(&caller).balance;
    proof {
        assert(capped <= gas_used) by (nonlinear_arith)
            requires capped == gas_used / 5;
    }
    let returned = match word_mul_u64(&state.tx.gas_price, gas_left + effective_refund) {
        Some(w) => w,
        None => { return Err(Error::ArithmeticOverflow); },
    };
    let caller_balance = match word_add(&caller_balance_prev, &returned) {
        Some(w) => w,
        None => { return Err(Error::ArithmeticOverflow); },
    };
    match state.account_write(step, caller, AccountField::Balance, caller_balance,
        caller_balance_prev) {
        Ok(()) => (),
        Err(e) => { return Err(e); },
    }
    Ok(())
}

/// Credits the coinbase with the effective tip over the net gas used plus
/// any rollup fee.
#[verifier::rlimit(60)]
fn settle_coinbase(state: &mut CircuitInputState, step: &mut ExecStep, gas_left: u64) -> (r:
    Result<(), Error>)
    requires
        old(state).wf(),
        old(state).ops().len() + 20 < usize::MAX,
        gas_left <= old(state).tx.gas,
    ensures
        final(state).wf(),
        crate::state::scalar_frame(*old(state), *final(state)),
        final(state).calls@ == old(state).calls@,
        final(state).call_stack@ == old(state).call_stack@,
        crate::state::step_fields_unchanged(*old(step), *final(step)),
        r.is_ok() <==> {
            let big: int =
                0x1_0000_0000_0000_0000_0000_0000_0000_0000_0000_0000_0000_0000_0000_0000_0000_0000int;
            &&& old(state).tx.gas_price.as_nat() >= old(state).block.base_fee.as_nat()
            &&& (old(state).tx.gas_price.as_nat() - old(state).block.base_fee.as_nat()) * (old(state).tx.gas - gas_left - spec_effective_refund(*old(state), gas_left)) < big
            &&& spec_coinbase_reward(*old(state), gas_left) < big
            &&& crate::state_db::lookup(old(state).sdb.accounts@, old(state).block.coinbase).is_some()
            &&& old(state).sdb.spec_account(old(state).block.coinbase).balance.as_nat()
                + spec_coinbase_reward(*old(state), gas_left) < big
        },
        match r {
            Ok(()) => {
                let reward = spec_coinbase_reward(*old(state), gas_left);
                let coinb = old(state).block.coinbase;
                let coinb_prev = old(state).sdb.spec_account(coinb).balance;
                &&& final(state).ops().len() == old(state).ops().len() + 1
                &&& (forall|j: int|
                    0 <= j < old(state).ops().len() ==> #[trigger] final(state).ops()[j] == old(state).ops()[j])
                &&& final(state).ops()[old(state).ops().len() as int].rwc == old(state).ops().len() + 1
                &&& final(state).ops()[old(state).ops().len() as int].rw == RW::Write
                &&& (final(state).ops()[old(state).ops().len() as int].op matches OpEnum::Account {
                    address,
                    field: AccountField::Balance,
                    value,
                    value_prev,
                } && address == coinb && value_prev == coinb_prev && value.as_nat()
                    == coinb_prev.as_nat() + reward)
                &&& final(state).sdb.db_read(DbKey::AccountBalance { address: coinb })
                    == coinb_prev.as_nat() + reward
                &&& (forall|k: DbKey|
                    k != (DbKey::AccountBalance { address: coinb })
                        ==> #[trigger] final(state).sdb.db_read(k) == old(state).sdb.db_read(k))
                &&& final(step).bus_mapping_instance@ == old(step).bus_mapping_instance@.push(
                    old(state).ops().len() as usize,
                )
            },
            Err(e) => final(state).sdb == old(state).sdb && final(state).ops() == old(
                state,
            ).ops() && final(step).bus_mapping_instance@ == old(step).bus_mapping_instance@ && (e
                matches Error::AccountNotFound(a) ==> a == old(state).block.coinbase
                && !crate::state_db::lookup(
                old(state).sdb.accounts@,
                old(state).block.coinbase,
            ).is_some()),
        },
{
    let refund = state.sdb.refund();
    let gas_used = state.tx.gas - gas_left;
    let capped = gas_used / MAX_REFUND_QUOTIENT_OF_GAS_USED;
    let effective_refund: u64 = if refund < capped {
        refund
    } else {
        capped
    };
    proof {
        assert(capped <= gas_used) by (nonlinear_arith)
            requires capped == gas_used / 5;
    }
    let effective_tip = match word_sub(&state.tx.gas_price, &state.block.base_fee) {
        Some(w) => w,
        None => { return Err(Error::ArithmeticOverflow); },
    };
    let reward_gas = gas_used - effective_refund;
    let tip_total = match word_mul_u64(&effective_tip, reward_gas) {
        Some(w) => w,
        None => { return Err(Error::ArithmeticOverflow); },
    };
    let coinbase_reward = match word_add(&tip_total, &state.tx.l1_fee) {
        Some(w) => w,
        None => { return Err(Error::ArithmeticOverflow); },
    };
    let coinbase = state.block.coinbase;
    if !state.sdb.account_exists(&coinbase) {
        return Err(Error::AccountNotFound(coinbase));
    }
    let coinbase_balance_prev = state.sdb.get_account(&coinbase).balance;
    let coinbase_balance = match word_add(&coinbase_balance_prev, &coinbase_reward) {
        Some(w) => w,
        None => { return Err(Error::ArithmeticOverflow); },
    };
    match state.account_write(step, coinbase, AccountField::Balance, coinbase_balance,
        coinbase_balance_prev) {
        Ok(()) => (),
        Err(e) => { return Err(e); },
    }
    Ok(())
}

/// Settles the gas accounts of the epilogue: returns unused gas plus the
/// effective refund to the caller, then credits the coinbase.
#[verifier::rlimit(100)]
fn settle_gas_balances(
    state: &mut CircuitInputState,
    step: &mut ExecStep,
    caller: crate::word::Address,
    gas_left: u64,
) -> (r: Result<(), Error>)
    requires
        old(state).wf(),
        old(state).ops().len() + 30 < usize::MAX,
        gas_left <= old(state).tx.gas,
    ensures
        final(state).wf(),
        crate::state::scalar_frame(*old(state), *final(state)),
        final(state).calls@ == old(state).calls@,
        final(state).call_stack@ == old(state).call_stack@,
        crate::state::step_fields_unchanged(*old(step), *final(step)),
        r.is_ok() <==> settle_ok(*old(state), caller, gas_left),
        match r {
            Ok(()) => {
                let ret = spec_caller_return(*old(state), gas_left);
                let reward = spec_coinbase_reward(*old(state), gas_left);
                let caller_prev = old(state).sdb.spec_account(caller).balance;
                let coinb = old(state).block.coinbase;
                let coinb_prev: int = if coinb == caller {
                    caller_prev.as_nat() + ret
                } else {
                    old(state).sdb.spec_account(coinb).balance.as_nat() as int
                };
                &&& final(state).ops().len() == old(state).ops().len() + 2
                &&& (forall|j: int|
                    0 <= j < old(state).ops().len() ==> #[trigger] final(state).ops()[j] == old(state).ops()[j])
                &&& final(state).ops()[old(state).ops().len() as int].rwc == old(state).ops().len() + 1
                &&& final(state).ops()[old(state).ops().len() as int].rw == RW::Write
                &&& (final(state).ops()[old(state).ops().len() as int].op matches OpEnum::Account {
                    address,
                    field: AccountField::Balance,
                    value,
                    value_prev,
                } && address == caller && value_prev == caller_prev && value.as_nat()
                    == caller_prev.as_nat() + ret)
                &&& final(state).ops()[old(state).ops().len() + 1int].rwc == old(state).ops().len() + 2
                &&& final(state).ops()[old(state).ops().len() + 1int].rw == RW::Write
                &&& (final(state).ops()[old(state).ops().len() + 1int].op matches OpEnum::Account {
                    address,
                    field: AccountField::Balance,
                    value,
                    value_prev,
                } && address == coinb && value_prev.as_nat() == coinb_prev && value.as_nat()
                    == coinb_prev + reward)
                &&& final(state).sdb.db_read(DbKey::AccountBalance { address: caller }) == if coinb
                    == caller {
                    coinb_prev + reward
                } else {
                    caller_prev.as_nat() + ret
                }
                &&& final(state).sdb.db_read(DbKey::AccountBalance { address: coinb })
                    == coinb_prev + reward
                &&& (forall|k: DbKey|
                    k != (DbKey::AccountBalance { address: caller }) && k != (
                    DbKey::AccountBalance { address: coinb })
                        ==> #[trigger] final(state).sdb.db_read(k) == old(state).sdb.db_read(k))
                &&& final(step).bus_mapping_instance@ == old(step).bus_mapping_instance@.push(
                    old(state).ops().len() as usize,
                ).push((old(state).ops().len() + 1) as usize)
            },
            Err(e) => (!crate::state_db::lookup(old(state).sdb.accounts@, caller).is_some() ==> e
                == Error::AccountNotFound(caller)) && (e matches Error::AccountNotFound(a) ==> (a
                == caller && !crate::state_db::lookup(
                old(state).sdb.accounts@,
                caller,
            ).is_some()) || (a == old(state).block.coinbase && !crate::state_db::lookup(
                old(state).sdb.accounts@,
                old(state).block.coinbase,
            ).is_some())),
        },
{
    match settle_caller(&mut *state, &mut *step, caller, gas_left) {
        Ok(()) => (),
        Err(e) => { return Err(e); },
    }
    proof {
        assert(state.sdb.db_read(DbKey::Refund) == old(state).sdb.db_read(DbKey::Refund));
        assert(state.sdb.refund == old(state).sdb.refund);
        assert(spec_effective_refund(*state, gas_left) == spec_effective_refund(
            *old(state),
            gas_left,
        ));
        assert(spec_coinbase_reward(*state, gas_left) == spec_coinbase_reward(
            *old(state),
            gas_left,
        ));
        let coinb = state.block.coinbase;
        assert(state.sdb.spec_account(coinb).balance.as_nat() as int == state.sdb.db_read(
            DbKey::AccountBalance { address: coinb },
        ));
        if coinb == caller {
            assert(state.sdb.db_read(DbKey::AccountBalance { address: coinb })
                == old(state).sdb.spec_account(caller).balance.as_nat() + spec_caller_return(
                *old(state),
                gas_left,
            ));
        } else {
            assert(state.sdb.db_read(DbKey::AccountBalance { address: coinb })
                == old(state).sdb.db_read(DbKey::AccountBalance { address: coinb }));
        }
        assert(crate::state_db::lookup(state.sdb.accounts@, coinb).is_some()
            <==> crate::state_db::lookup(old(state).sdb.accounts@, coinb).is_some() || coinb
            == caller);
    }
    match settle_coinbase(&mut *state, &mut *step, gas_left) {
        Ok(()) => (),
        Err(e) => {
            proof {
                let coinb = old(state).block.coinbase;
                assert(state.block.coinbase == coinb);
                assert(crate::state_db::lookup(state.sdb.accounts@, coinb).is_some()
                    <==> crate::state_db::lookup(old(state).sdb.accounts@, coinb).is_some()
                    || coinb == caller);
                assert(crate::state_db::lookup(old(state).sdb.accounts@, caller).is_some());
                if coinb == caller {
                    assert(crate::state_db::lookup(state.sdb.accounts@, coinb).is_some());
                    assert(!(e matches Error::AccountNotFound(_)));
                }
            }
            return Err(e);
        },
    }
    Ok(())
}

/// The refund actually honoured: the accumulated refund, capped against
/// the gas used divided by the refund quotient.
pub open spec fn spec_effective_refund(st: CircuitInputState, gas_left: u64) -> int {
    let gas_used = st.tx.gas - gas_left;
    let capped = gas_used as int / 5;
    if st.sdb.refund < capped {
        st.sdb.refund as int
    } else {
        capped
    }
}

/// The gas returned to the caller, in wei.
pub open spec fn spec_caller_return(st: CircuitInputState, gas_left: u64) -> int {
    st.tx.gas_price.as_nat() * (gas_left + spec_effective_refund(st, gas_left))
}

/// The coinbase's reward: the effective tip over the net gas used, plus
/// any rollup fee.
pub open spec fn spec_coinbase_reward(st: CircuitInputState, gas_left: u64) -> int {
    (st.tx.gas_price.as_nat() - st.block.base_fee.as_nat()) * (st.tx.gas - gas_left
        - spec_effective_refund(st, gas_left)) + st.tx.l1_fee.as_nat()
}

/// Exactly when the caller and coinbase settlement succeeds: both accounts
/// exist, the price covers the base fee, and no balance product or sum
/// overflows 256 bits.
pub open spec fn settle_ok(st: CircuitInputState, caller: crate::word::Address, gas_left: u64) -> bool {
    let big: int =
        0x1_0000_0000_0000_0000_0000_0000_0000_0000_0000_0000_0000_0000_0000_0000_0000_0000int;
    let caller_prev = st.sdb.spec_account(caller).balance.as_nat() as int;
    let caller_after = caller_prev + spec_caller_return(st, gas_left);
    let coinbase_prev = if st.block.coinbase == caller {
        caller_after
    } else {
        st.sdb.spec_account(st.block.coinbase).balance.as_nat() as int
    };
    &&& crate::state_db::lookup(st.sdb.accounts@, caller).is_some()
    &&& spec_caller_return(st, gas_left) < big
    &&& caller_after < big
    &&& st.tx.gas_price.as_nat() >= st.block.base_fee.as_nat()
    &&& (st.tx.gas_price.as_nat() - st.block.base_fee.as_nat()) * (st.tx.gas - gas_left
        - spec_effective_refund(st, gas_left)) < big
    &&& spec_coinbase_reward(st, gas_left) < big
    &&& crate::state_db::lookup(st.sdb.accounts@, st.block.coinbase).is_some()
    &&& coinbase_prev + spec_coinbase_reward(st, gas_left) < big
}

/// Exactly when the epilogue succeeds: the settlement goes through, the
/// cumulative gas fits, and a following transaction's id is representable.
pub open spec fn end_tx_ok(st: CircuitInputState, gas_left: u64) -> bool {
    &&& settle_ok(st, st.calls@[0].caller_address, gas_left)
    &&& st.cumulative_gas_used + st.tx.gas - gas_left <= u64::MAX
    &&& (!st.is_last_tx ==> st.tx_id < 0xffff_ffff)
}

#[verifier::rlimit(100)]
pub fn gen_end_tx_ops(state: &mut CircuitInputState, gas_left: u64) -> (r: Result<ExecStep, Error>)
    requires
        old(state).wf(),
        old(state).calls@.len() > 0,
        old(state).ops().len() + 40 < usize::MAX,
        gas_left <= old(state).tx.gas,
        old(state).tx_id >= 1,
        old(state).tx_id <= 0xffff_ffff,
    ensures
        final(state).wf(),
        match r {
            Ok(s) => {
                let call = old(state).calls@[0];
                let refund = old(state).sdb.refund;
                &&& s.exec_state == ExecState::EndTx
                &&& final(state).ops().len() >= old(state).ops().len() + 3
                &&& final(state).ops()[old(state).ops().len() as int] == (Operation {
                    rwc: (old(state).ops().len() + 1) as usize,
                    rw: RW::Read,
                    op: OpEnum::CallContext {
                        call_id: call.call_id,
                        field: CallContextField::TxId,
                        value: Word { l0: old(state).tx_id as u64, l1: 0, l2: 0, l3: 0 },
                    },
                })
                &&& final(state).ops()[old(state).ops().len() + 1int] == (Operation {
                    rwc: (old(state).ops().len() + 2) as usize,
                    rw: RW::Read,
                    op: OpEnum::CallContext {
                        call_id: call.call_id,
                        field: CallContextField::IsPersistent,
                        value: Word {
                            l0: if call.is_persistent {
                                1
                            } else {
                                0
                            },
                            l1: 0,
                            l2: 0,
                            l3: 0,
                        },
                    },
                })
                &&& final(state).ops()[old(state).ops().len() + 2int] == (Operation {
                    rwc: (old(state).ops().len() + 3) as usize,
                    rw: RW::Read,
                    op: OpEnum::TxRefund {
                        tx_id: old(state).tx_id,
                        value: refund,
                        value_prev: refund,
                    },
                })
                &&& {
                    let ret = spec_caller_return(*old(state), gas_left);
                    let reward = spec_coinbase_reward(*old(state), gas_left);
                    let caller_prev = old(state).sdb.spec_account(call.caller_address).balance;
                    let coinb = old(state).block.coinbase;
                    let coinb_prev: int = if coinb == call.caller_address {
                        caller_prev.as_nat() + ret
                    } else {
                        old(state).sdb.spec_account(coinb).balance.as_nat() as int
                    };
                    let pr: int = if old(state).tx_id > 1 {
                        1int
                    } else {
                        0int
                    };
                    let nx: int = if old(state).is_last_tx {
                        0int
                    } else {
                        1int
                    };
                    // the caller's unused gas and refund come back
                    &&& final(state).ops()[old(state).ops().len() + 3int].rwc == old(state).ops().len() + 4
                    &&& final(state).ops()[old(state).ops().len() + 3int].rw == RW::Write
                    &&& (final(state).ops()[old(state).ops().len() + 3int].op matches
                        OpEnum::Account { address, field: AccountField::Balance, value, value_prev }
                        && address == call.caller_address && value_prev == caller_prev
                        && value.as_nat() == caller_prev.as_nat() + ret)
                    // the coinbase collects the effective tip and rollup fee
                    &&& final(state).ops()[old(state).ops().len() + 4int].rwc == old(state).ops().len() + 5
                    &&& final(state).ops()[old(state).ops().len() + 4int].rw == RW::Write
                    &&& (final(state).ops()[old(state).ops().len() + 4int].op matches
                        OpEnum::Account { address, field: AccountField::Balance, value, value_prev }
                        && address == coinb && value_prev.as_nat() == coinb_prev
                        && value.as_nat() == coinb_prev + reward)
                    // the receipt: status, log count and the cumulative thread
                    &&& final(state).ops()[old(state).ops().len() + 5int] == (Operation {
                        rwc: (old(state).ops().len() + 6) as usize,
                        rw: RW::Write,
                        op: OpEnum::TxReceipt {
                            tx_id: old(state).tx_id,
                            field: TxReceiptField::PostStateOrStatus,
                            value: if call.is_persistent {
                                1
                            } else {
                                0
                            },
                        },
                    })
                    &&& final(state).ops()[old(state).ops().len() + 6int] == (Operation {
                        rwc: (old(state).ops().len() + 7) as usize,
                        rw: RW::Write,
                        op: OpEnum::TxReceipt {
                            tx_id: old(state).tx_id,
                            field: TxReceiptField::LogLength,
                            value: 0,
                        },
                    })
                    &&& (old(state).tx_id > 1 ==> final(state).ops()[old(state).ops().len()
                        + 7int] == (Operation {
                        rwc: (old(state).ops().len() + 8) as usize,
                        rw: RW::Read,
                        op: OpEnum::TxReceipt {
                            tx_id: (old(state).tx_id - 1) as usize,
                            field: TxReceiptField::CumulativeGasUsed,
                            value: old(state).cumulative_gas_used,
                        },
                    }))
                    &&& final(state).ops()[old(state).ops().len() + 7 + pr] == (Operation {
                        rwc: (old(state).ops().len() + 8 + pr) as usize,
                        rw: RW::Write,
                        op: OpEnum::TxReceipt {
                            tx_id: old(state).tx_id,
                            field: TxReceiptField::CumulativeGasUsed,
                            value: (old(state).cumulative_gas_used + old(state).tx.gas
                                - gas_left) as u64,
                        },
                    })
                    // the next transaction's id is seeded into its root frame
                    &&& (!old(state).is_last_tx ==> final(state).ops()[old(state).ops().len() + 8
                        + pr] == (Operation {
                        rwc: (old(state).ops().len() + 9 + pr) as usize,
                        rw: RW::Write,
                        op: OpEnum::CallContext {
                            call_id: (old(state).ops().len() + 10 + pr) as usize,
                            field: CallContextField::TxId,
                            value: Word {
                                l0: (old(state).tx_id + 1) as u64,
                                l1: 0,
                                l2: 0,
                                l3: 0,
                            },
                        },
                    }))
                    &&& final(state).ops().len() == old(state).ops().len() + 8 + pr + nx
                    // the settled balances
                    &&& final(state).sdb.db_read(DbKey::AccountBalance {
                        address: call.caller_address,
                    }) == if coinb == call.caller_address {
                        coinb_prev + reward
                    } else {
                        caller_prev.as_nat() + ret
                    }
                    &&& final(state).sdb.db_read(DbKey::AccountBalance { address: coinb })
                        == coinb_prev + reward
                    &&& (forall|k: DbKey|
                        k != (DbKey::AccountBalance { address: call.caller_address }) && k != (
                        DbKey::AccountBalance { address: coinb })
                            ==> #[trigger] final(state).sdb.db_read(k) == old(state).sdb.db_read(
                            k,
                        ))
                    &&& s.gas_left == gas_left
                    &&& s.error.is_none()
                    &&& s.bus_mapping_instance@.len() == final(state).ops().len() - old(state).ops().len()
                    &&& crate::opcodes::bmi_contiguous(s, old(state).ops().len() as int)
                }
                &&& final(state).cumulative_gas_used == old(state).cumulative_gas_used
                    + old(state).tx.gas - gas_left
            },
            Err(_) => true,
        },
        r.is_ok() <==> end_tx_ok(*old(state), gas_left),
        // a missing settled account is the named fatal error
        !crate::state_db::lookup(
            old(state).sdb.accounts@,
            old(state).calls@[0].caller_address,
        ).is_some() ==> r == Err::<ExecStep, Error>(Error::AccountNotFound(
            old(state).calls@[0].caller_address,
        )),
        r matches Err(e) ==> (e matches Error::AccountNotFound(a) ==> (a == old(
            state,
        ).calls@[0].caller_address && !crate::state_db::lookup(
            old(state).sdb.accounts@,
            a,
        ).is_some()) || (a == old(state).block.coinbase && !crate::state_db::lookup(
            old(state).sdb.accounts@,
            a,
        ).is_some())),
{
    let mut exec_step = ExecStep {
        exec_state: ExecState::EndTx,
        pc: 0,
        stack_size: 0,
        gas_left,
        gas_cost: 0,
        call_index: 0,
        rwc_start: state.container.ops.len() + 1,
        bus_mapping_instance: Vec::new(),
        error: None,
        function_index: 0,
        num_locals: 0,
        max_stack_height: 0,
        log_id: 0,
    };
    let call = state.calls[0];

    state.call_context_read(
        &mut exec_step,
        call.call_id,
        CallContextField::TxId,
        Word::from_u64(state.tx_id as u64),
    );
    let persistent_flag: u64 = if call.is_persistent {
        1
    } else {
        0
    };
    state.call_context_read(
        &mut exec_step,
        call.call_id,
        CallContextField::IsPersistent,
        Word::from_u64(persistent_flag),
    );

    let refund = state.sdb.refund();
    let tx_id = state.tx_id;
    state.push_op(
        &mut exec_step,
        RW::Read,
        OpEnum::TxRefund { tx_id, value: refund, value_prev: refund },
    );

    match settle_gas_balances(&mut *state, &mut exec_step, call.caller_address, gas_left) {
        Ok(()) => (),
        Err(e) => { return Err(e); },
    }
    let gas_used = state.tx.gas - gas_left;

    // receipt bookkeeping
    let status: u64 = if call.is_persistent {
        1
    } else {
        0
    };
    state.tx_receipt_write(&mut exec_step, tx_id, TxReceiptField::PostStateOrStatus, status);
    let log_id = exec_step.log_id;
    state.tx_receipt_write(&mut exec_step, tx_id, TxReceiptField::LogLength, log_id as u64);

    if tx_id > 1 {
        let prior = state.cumulative_gas_used;
        state.tx_receipt_read(&mut exec_step, tx_id - 1, TxReceiptField::CumulativeGasUsed, prior);
    }
    if gas_used > u64::MAX - state.cumulative_gas_used {
        return Err(Error::ArithmeticOverflow);
    }
    state.cumulative_gas_used = state.cumulative_gas_used + gas_used;
    let cumulative = state.cumulative_gas_used;
    state.tx_receipt_write(&mut exec_step, tx_id, TxReceiptField::CumulativeGasUsed, cumulative);

    // pre-write the next transaction's id into its root call context
    if !state.is_last_tx {
        if state.tx_id == 0xffff_ffff {
            return Err(Error::ArithmeticOverflow);
        }
        let next_call_id = state.container.ops.len() + 2;
        state.call_context_write(
            &mut exec_step,
            next_call_id,
            CallContextField::TxId,
            Word::from_u64((tx_id + 1) as u64),
        );
    }

    Ok(exec_step)
}

} // verus!
