//! Reversible operations and the reversion round-trip law.
//!
//! Account, storage, access-list and refund writes performed inside a call
//! that might later revert are recorded in the call's reversible log.  On
//! failure the log is replayed in reverse with value and previous value
//! swapped.  This module gives the log entries their key-value reading and
//! proves that applying a consistent log forward and then backward restores
//! every database key exactly.

use vstd::prelude::*;
use crate::operation::OpEnum;
use crate::state_db::DbKey;

verus! {

/// Whether an operation may be recorded in a reversible log: it must be a
/// write of one of the database-backed kinds.
pub open spec fn is_reversible(op: OpEnum) -> bool {
    match op {
        OpEnum::Account { .. } => true,
        OpEnum::Storage { .. } => true,
        OpEnum::TxAccessListAccount { .. } => true,
        OpEnum::TxAccessListAccountStorage { .. } => true,
        OpEnum::TxRefund { .. } => true,
        _ => false,
    }
}

/// The database key a reversible operation addresses.
pub open spec fn rev_key(op: OpEnum) -> DbKey {
    match op {
        OpEnum::Account { address, field, .. } => match field {
            crate::operation::AccountField::Nonce => DbKey::AccountNonce { address },
            crate::operation::AccountField::Balance => DbKey::AccountBalance { address },
            crate::operation::AccountField::CodeHash => DbKey::AccountCodeHash { address },
        },
        OpEnum::Storage { address, key, .. } => DbKey::StorageSlot { address, key },
        OpEnum::TxAccessListAccount { address, .. } => DbKey::WarmAccount { address },
        OpEnum::TxAccessListAccountStorage { address, key, .. } => DbKey::WarmSlot { address, key },
        _ => DbKey::Refund,
    }
}

/// The value a reversible operation writes.
pub open spec fn rev_value(op: OpEnum) -> int {
    match op {
        OpEnum::Account { value, .. } => value.as_nat() as int,
        OpEnum::Storage { value, .. } => value.as_nat() as int,
        OpEnum::TxAccessListAccount { is_warm, .. } => if is_warm { 1int } else { 0int },
        OpEnum::TxAccessListAccountStorage { is_warm, .. } => if is_warm { 1int } else { 0int },
        OpEnum::TxRefund { value, .. } => value as int,
        _ => 0int,
    }
}

/// The previous value a reversible operation claims for its key.
pub open spec fn rev_prev(op: OpEnum) -> int {
    match op {
        OpEnum::Account { value_prev, .. } => value_prev.as_nat() as int,
        OpEnum::Storage { value_prev, .. } => value_prev.as_nat() as int,
        OpEnum::TxAccessListAccount { is_warm_prev, .. } => if is_warm_prev { 1int } else { 0int },
        OpEnum::TxAccessListAccountStorage { is_warm_prev, .. } => if is_warm_prev { 1int } else { 0int },
        OpEnum::TxRefund { value_prev, .. } => value_prev as int,
        _ => 0int,
    }
}

/// A reversible operation with value and previous value swapped: the
/// compensating write appended to the log when the operation is undone.
pub open spec fn swap_op(op: OpEnum) -> OpEnum {
    match op {
        OpEnum::Account { address, field, value, value_prev } => OpEnum::Account {
            address,
            field,
            value: value_prev,
            value_prev: value,
        },
        OpEnum::Storage { tx_id, address, key, value, value_prev } => OpEnum::Storage {
            tx_id,
            address,
            key,
            value: value_prev,
            value_prev: value,
        },
        OpEnum::TxAccessListAccount { tx_id, address, is_warm, is_warm_prev } =>
            OpEnum::TxAccessListAccount {
                tx_id,
                address,
                is_warm: is_warm_prev,
                is_warm_prev: is_warm,
            },
        OpEnum::TxAccessListAccountStorage { tx_id, address, key, is_warm, is_warm_prev } =>
            OpEnum::TxAccessListAccountStorage {
                tx_id,
                address,
                key,
                is_warm: is_warm_prev,
                is_warm_prev: is_warm,
            },
        OpEnum::TxRefund { tx_id, value, value_prev } => OpEnum::TxRefund {
            tx_id,
            value: value_prev,
            value_prev: value,
        },
        _ => op,
    }
}

/// Applies log entries first-to-last: each write sets its key to its value.
pub open spec fn apply_entries(m: Map<DbKey, int>, s: Seq<OpEnum>) -> Map<DbKey, int>
    decreases s.len(),
{
    if s.len() == 0 {
        m
    } else {
        apply_entries(m.insert(rev_key(s[0]), rev_value(s[0])), s.drop_first())
    }
}

/// Undoes log entries last-to-first: each write sets its key back to its
/// claimed previous value (the entry at index 0 is undone last).
pub open spec fn revert_entries(m: Map<DbKey, int>, s: Seq<OpEnum>) -> Map<DbKey, int>
    decreases s.len(),
{
    if s.len() == 0 {
        m
    } else {
        revert_entries(m, s.drop_first()).insert(rev_key(s[0]), rev_prev(s[0]))
    }
}

/// A log is consistent with a database when each entry's claimed previous
/// value equals the value its key holds just before that entry applies.
pub open spec fn entries_consistent(m: Map<DbKey, int>, s: Seq<OpEnum>) -> bool
    decreases s.len(),
{
    s.len() == 0 || (rev_prev(s[0]) == m[rev_key(s[0])] && entries_consistent(
        m.insert(rev_key(s[0]), rev_value(s[0])),
        s.drop_first(),
    ))
}

/// The reversion round-trip law: replaying a reversible log forward and then
/// backward over a database leaves every key exactly as it started, provided
/// each entry's previous value was recorded consistently.
pub proof fn lemma_reversion_round_trip(m: Map<DbKey, int>, s: Seq<OpEnum>)
    requires
        forall|k: DbKey| m.dom().contains(k),
        entries_consistent(m, s),
    ensures
        forall|k: DbKey| #[trigger] revert_entries(apply_entries(m, s), s)[k] == m[k],
    decreases s.len(),
{
    if s.len() > 0 {
        let k0 = rev_key(s[0]);
        let v0 = rev_value(s[0]);
        let p0 = rev_prev(s[0]);
        let m1 = m.insert(k0, v0);
        lemma_reversion_round_trip(m1, s.drop_first());
        assert forall|k: DbKey| true implies #[trigger] revert_entries(
            apply_entries(m, s),
            s,
        )[k] == m[k] by {
            assert(apply_entries(m, s) == apply_entries(m1, s.drop_first()));
            if k == k0 {
                assert(revert_entries(apply_entries(m, s), s)[k] == p0);
                assert(m[k0] == p0);
            } else {
                assert(revert_entries(apply_entries(m, s), s)[k]
                    == revert_entries(apply_entries(m1, s.drop_first()), s.drop_first())[k]);
                assert(revert_entries(apply_entries(m1, s.drop_first()), s.drop_first())[k]
                    == m1[k]);
                assert(m1[k] == m[k]);
            }
        }
    }
}

} // verus!
