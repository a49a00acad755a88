//! The library's cross-cutting laws over whole operation logs.
//!
//! The primitives in [`crate::state`] validate each database-backed
//! operation against the database at append time.  The lemmas here lift that
//! per-operation fact to the log as a whole: every write's previous value
//! equals the value of its key as of the operation that last touched it (or
//! the starting value), the same read twice in a row yields the same value,
//! and gas never increases along a chain of steps.

use vstd::prelude::*;
use crate::exec_step::ExecStep;
use crate::operation::{OpEnum, Operation, RW};
use crate::reversion::{is_reversible, rev_key, rev_prev, rev_value};
use crate::state_db::DbKey;

verus! {

/// The database key an operation addresses, for the database-backed kinds.
pub open spec fn op_db_key(op: OpEnum) -> Option<DbKey> {
    if is_reversible(op) {
        Some(rev_key(op))
    } else {
        None
    }
}

/// The database after one operation: a database-backed write rebinds its
/// key; reads and non-database operations leave it alone.
pub open spec fn step_db(m: Map<DbKey, int>, o: Operation) -> Map<DbKey, int> {
    match op_db_key(o.op) {
        Some(k) => if o.rw == RW::Write {
            m.insert(k, rev_value(o.op))
        } else {
            m
        },
        None => m,
    }
}

/// The value of key `k` after the first `n` operations of `s`, starting
/// from database `m`.
pub open spec fn db_value_after(m: Map<DbKey, int>, s: Seq<Operation>, n: int, k: DbKey) -> int
    decreases n,
{
    if n <= 0 {
        m[k]
    } else if s[n - 1].rw == RW::Write && op_db_key(s[n - 1].op) == Some(k) {
        rev_value(s[n - 1].op)
    } else {
        db_value_after(m, s, n - 1, k)
    }
}

/// A log is consistent with a starting database when every database-backed
/// write carries as previous value, and every database-backed read carries
/// as value, the value its key holds at that point.  This is what the
/// orchestrator's primitives check operation by operation.
pub open spec fn db_ops_consistent(m: Map<DbKey, int>, s: Seq<Operation>) -> bool
    decreases s.len(),
{
    s.len() == 0 || ({
        let o = s[0];
        (match op_db_key(o.op) {
            Some(k) => if o.rw == RW::Write {
                rev_prev(o.op) == m[k]
            } else {
                rev_value(o.op) == m[k]
            },
            None => true,
        }) && db_ops_consistent(step_db(m, o), s.drop_first())
    })
}

/// Evaluating `db_value_after` from the start of the log equals evaluating
/// it from after the first operation.
proof fn lemma_value_after_shift(m: Map<DbKey, int>, s: Seq<Operation>, n: int, k: DbKey)
    requires
        1 <= n <= s.len(),
    ensures
        db_value_after(m, s, n, k) == db_value_after(step_db(m, s[0]), s.drop_first(), n - 1, k),
    decreases n,
{
    if n == 1 {
        let o = s[0];
        assert(db_value_after(step_db(m, o), s.drop_first(), 0, k) == step_db(m, o)[k]);
        match op_db_key(o.op) {
            Some(k2) => {
                if o.rw == RW::Write {
                    if k2 == k {
                        assert(db_value_after(m, s, 1, k) == rev_value(o.op));
                        assert(step_db(m, o)[k] == rev_value(o.op));
                    } else {
                        assert(db_value_after(m, s, 0, k) == m[k]);
                        assert(db_value_after(m, s, 1, k) == db_value_after(m, s, 0, k));
                        assert(step_db(m, o)[k] == m[k]);
                    }
                } else {
                    assert(db_value_after(m, s, 0, k) == m[k]);
                    assert(step_db(m, o) == m);
                }
            },
            None => {
                assert(step_db(m, o) == m);
            },
        }
    } else {
        assert(s.drop_first()[n - 2] == s[n - 1]);
        lemma_value_after_shift(m, s, n - 1, k);
    }
}

/// Write-consistency: in a consistent log, every database-backed write's
/// previous value equals the value its key held as of the operations before
/// it (the starting database's value if none touched it).
pub proof fn lemma_write_consistency(m: Map<DbKey, int>, s: Seq<Operation>, i: int)
    requires
        db_ops_consistent(m, s),
        0 <= i < s.len(),
        s[i].rw == RW::Write,
        op_db_key(s[i].op).is_some(),
    ensures
        rev_prev(s[i].op) == db_value_after(m, s, i, op_db_key(s[i].op).unwrap()),
    decreases i,
{
    if i > 0 {
        lemma_write_consistency(step_db(m, s[0]), s.drop_first(), i - 1);
        assert(s.drop_first()[i - 1] == s[i]);
        lemma_value_after_shift(m, s, i, op_db_key(s[i].op).unwrap());
    }
}

/// In a consistent log, every database-backed read returns the value its
/// key held at that point.
pub proof fn lemma_read_value(m: Map<DbKey, int>, s: Seq<Operation>, i: int)
    requires
        db_ops_consistent(m, s),
        0 <= i < s.len(),
        s[i].rw == RW::Read,
        op_db_key(s[i].op).is_some(),
    ensures
        rev_value(s[i].op) == db_value_after(m, s, i, op_db_key(s[i].op).unwrap()),
    decreases i,
{
    if i > 0 {
        lemma_read_value(step_db(m, s[0]), s.drop_first(), i - 1);
        assert(s.drop_first()[i - 1] == s[i]);
        lemma_value_after_shift(m, s, i, op_db_key(s[i].op).unwrap());
    }
}

/// The value of a key does not move across operations that do not write it.
proof fn lemma_value_stable(m: Map<DbKey, int>, s: Seq<Operation>, i: int, j: int, k: DbKey)
    requires
        0 <= i <= j <= s.len(),
        forall|l: int|
            i <= l < j ==> !((#[trigger] s[l]).rw == RW::Write && op_db_key(s[l].op) == Some(k)),
    ensures
        db_value_after(m, s, j, k) == db_value_after(m, s, i, k),
    decreases j - i,
{
    if j > i {
        lemma_value_stable(m, s, i, j - 1, k);
    }
}

/// Read-idempotence: two reads of the same key with no intervening write of
/// that key yield the same value.
pub proof fn lemma_read_idempotent(m: Map<DbKey, int>, s: Seq<Operation>, i: int, j: int)
    requires
        db_ops_consistent(m, s),
        0 <= i < j < s.len(),
        s[i].rw == RW::Read,
        s[j].rw == RW::Read,
        op_db_key(s[i].op).is_some(),
        op_db_key(s[j].op) == op_db_key(s[i].op),
        forall|l: int|
            i < l < j ==> !((#[trigger] s[l]).rw == RW::Write && op_db_key(s[l].op) == op_db_key(
                s[i].op,
            )),
    ensures
        rev_value(s[j].op) == rev_value(s[i].op),
{
    let k = op_db_key(s[i].op).unwrap();
    lemma_read_value(m, s, i);
    lemma_read_value(m, s, j);
    lemma_value_stable(m, s, i, j, k);
}

/// Appending an operation validated against the current database keeps the
/// log consistent: this is the form of the append-time check every write
/// and read primitive makes, so a log grown only through them satisfies
/// `db_ops_consistent` from its starting database.
pub proof fn lemma_consistent_append(m: Map<DbKey, int>, s: Seq<Operation>, o: Operation)
    requires
        db_ops_consistent(m, s),
        match op_db_key(o.op) {
            Some(k) => if o.rw == RW::Write {
                rev_prev(o.op) == db_value_after(m, s, s.len() as int, k)
            } else {
                rev_value(o.op) == db_value_after(m, s, s.len() as int, k)
            },
            None => true,
        },
    ensures
        db_ops_consistent(m, s.push(o)),
    decreases s.len(),
{
    if s.len() == 0 {
        assert(s.push(o)[0] == o);
        assert(s.push(o).drop_first() =~= Seq::<Operation>::empty());
        assert(db_value_after(m, s, 0, match op_db_key(o.op) {
            Some(k) => k,
            None => DbKey::Refund,
        }) == m[match op_db_key(o.op) {
            Some(k) => k,
            None => DbKey::Refund,
        }]);
        assert(db_ops_consistent(step_db(m, o), s.push(o).drop_first()));
    } else {
        assert(s.push(o)[0] == s[0]);
        assert(s.push(o).drop_first() =~= s.drop_first().push(o));
        match op_db_key(o.op) {
            Some(k) => {
                lemma_value_after_shift(m, s, s.len() as int, k);
            },
            None => {},
        }
        lemma_consistent_append(step_db(m, s[0]), s.drop_first(), o);
    }
}

/// The orchestrator's append-time check, connected to the log-level
/// consistency predicate: a database-backed write appended under
/// `apply_ok` — the exact condition `account_write`, `storage_write` and
/// `push_op_reversible` verify before appending, namely that the claimed
/// previous value equals the database's current value — keeps the log
/// consistent, and so does a read validated against the database.  A log
/// grown only through those primitives therefore satisfies
/// `db_ops_consistent` from its starting database.
pub proof fn lemma_consistent_step(
    m: Map<DbKey, int>,
    s: Seq<Operation>,
    o: Operation,
    db_pre: crate::state_db::StateDB,
)
    requires
        db_ops_consistent(m, s),
        forall|k: DbKey| #[trigger] db_pre.db_read(k) == db_value_after(m, s, s.len() as int, k),
        match op_db_key(o.op) {
            Some(k) => if o.rw == RW::Write {
                crate::state::apply_ok(db_pre, o.op)
            } else {
                rev_value(o.op) == db_pre.db_read(k)
            },
            None => true,
        },
    ensures
        db_ops_consistent(m, s.push(o)),
{
    match op_db_key(o.op) {
        Some(k) => {
            if o.rw == RW::Write {
                assert(rev_prev(o.op) == db_pre.db_read(k));
            }
            lemma_consistent_append(m, s, o);
        },
        None => {
            lemma_consistent_append(m, s, o);
        },
    }
}

/// A chain of witness steps whose gas bookkeeping is locally sound: each
/// step pays its cost out of its remaining gas and hands the rest on.
pub open spec fn gas_chain(s: Seq<ExecStep>) -> bool {
    forall|i: int|
        0 <= i < s.len() - 1 ==> (#[trigger] s[i]).gas_cost <= s[i].gas_left && s[i + 1].gas_left
            == s[i].gas_left - s[i].gas_cost
}

/// Gas monotonicity: along such a chain, the remaining gas never increases
/// (and, being unsigned, never goes negative).  A step that could not pay
/// its cost is classified as out-of-gas before any chain is formed, so it
/// never appears inside one.
#[verifier::rlimit(50)]
pub proof fn lemma_gas_monotonic(s: Seq<ExecStep>, i: int, j: int)
    requires
        gas_chain(s),
        0 <= i <= j < s.len(),
    ensures
        s[j].gas_left <= s[i].gas_left,
    decreases j - i,
{
    if j > i {
        lemma_gas_monotonic(s, i, j - 1);
        assert(s[j - 1].gas_cost <= s[j - 1].gas_left && s[(j - 1) + 1].gas_left == s[j - 1].gas_left
            - s[j - 1].gas_cost);
    }
}

} // verus!
