//! The state database: accounts, storage, per-transaction access lists and
//! the refund counter.
//!
//! Accounts and storage are kept as append-only journals (the latest entry
//! for a key wins), so every mutation has a one-step frame proof.  Reading an
//! unknown address yields the default empty account rather than an error.
//! The whole database is also viewed as one flat key-to-value map
//! ([`DbKey`], [`StateDB::db_read`]): that view is what the write-consistency
//! and reversion laws are stated over.

use vstd::prelude::*;
use crate::word::{Address, Word};

verus! {

/// The latest binding of `k` in an append-only journal, if any.
pub open spec fn lookup<K, V>(s: Seq<(K, V)>, k: K) -> Option<V>
    decreases s.len(),
{
    if s.len() == 0 {
        None
    } else if s.last().0 == k {
        Some(s.last().1)
    } else {
        lookup(s.drop_last(), k)
    }
}

/// Appending a binding only changes the bound key.
pub proof fn lemma_lookup_push<K, V>(s: Seq<(K, V)>, p: (K, V), k: K)
    ensures
        lookup(s.push(p), k) == if p.0 == k {
            Some(p.1)
        } else {
            lookup(s, k)
        },
{
    assert(s.push(p).drop_last() =~= s);
    assert(s.push(p).last() == p);
}

/// The latest binding of `(a, k)` in a two-key journal, if any.
pub open spec fn lookup2<V>(s: Seq<(Address, Word, V)>, a: Address, k: Word) -> Option<V>
    decreases s.len(),
{
    if s.len() == 0 {
        None
    } else if s.last().0 == a && s.last().1 == k {
        Some(s.last().2)
    } else {
        lookup2(s.drop_last(), a, k)
    }
}

pub proof fn lemma_lookup2_push<V>(s: Seq<(Address, Word, V)>, p: (Address, Word, V), a: Address, k: Word)
    ensures
        lookup2(s.push(p), a, k) == if p.0 == a && p.1 == k {
            Some(p.2)
        } else {
            lookup2(s, a, k)
        },
{
    assert(s.push(p).drop_last() =~= s);
    assert(s.push(p).last() == p);
}

/// The journal with every entry of address `a` removed.
pub open spec fn remove_addr(s: Seq<(Address, Word, Word)>, a: Address) -> Seq<(Address, Word, Word)>
    decreases s.len(),
{
    if s.len() == 0 {
        s
    } else if s.last().0 == a {
        remove_addr(s.drop_last(), a)
    } else {
        remove_addr(s.drop_last(), a).push(s.last())
    }
}

/// Removing one address erases its slots and leaves every other key alone.
pub proof fn lemma_remove_addr(s: Seq<(Address, Word, Word)>, a: Address, b: Address, k: Word)
    ensures
        lookup2(remove_addr(s, a), a, k) == None::<Word>,
        b != a ==> lookup2(remove_addr(s, a), b, k) == lookup2(s, b, k),
    decreases s.len(),
{
    if s.len() > 0 {
        lemma_remove_addr(s.drop_last(), a, b, k);
        if s.last().0 != a {
            lemma_lookup2_push(remove_addr(s.drop_last(), a), s.last(), a, k);
            lemma_lookup2_push(remove_addr(s.drop_last(), a), s.last(), b, k);
        }
    }
}

/// The balance-nonce-code part of one account.  Reading an address that was
/// never written yields the empty account: nonce 0, balance 0, zero code hash.
#[derive(Clone, Copy, Debug, PartialEq, Eq, Structural)]
pub struct Account {
    pub nonce: u64,
    pub balance: Word,
    pub code_hash: Word,
}

/// One flat address space over everything the database holds: account
/// fields, storage slots, access-list warm flags and the refund counter.
#[derive(Clone, Copy, Debug, PartialEq, Eq, Structural)]
pub enum DbKey {
    AccountNonce { address: Address },
    AccountBalance { address: Address },
    AccountCodeHash { address: Address },
    StorageSlot { address: Address, key: Word },
    WarmAccount { address: Address },
    WarmSlot { address: Address, key: Word },
    Refund,
}

/// The state database of one block-processing pass.
#[derive(Debug)]
pub struct StateDB {
    /// Account journal: the latest entry for an address wins.
    pub accounts: Vec<(Address, Account)>,
    /// Storage journal over (address, slot) pairs.
    pub storage: Vec<(Address, Word, Word)>,
    /// Addresses warmed by the current transaction.
    pub warm_accounts: Vec<(Address, bool)>,
    /// Storage slots warmed by the current transaction.
    pub warm_slots: Vec<(Address, Word, bool)>,
    /// The current transaction's accumulated gas refund.
    pub refund: u64,
}

impl StateDB {
    /// The account bound to `a`, or the empty account.
    pub open spec fn spec_account(self, a: Address) -> Account {
        match lookup(self.accounts@, a) {
            Some(x) => x,
            None => Account {
                nonce: 0,
                balance: Word { l0: 0, l1: 0, l2: 0, l3: 0 },
                code_hash: Word { l0: 0, l1: 0, l2: 0, l3: 0 },
            },
        }
    }

    /// The value of storage slot `k` of account `a`, zero if never written.
    pub open spec fn spec_storage(self, a: Address, k: Word) -> nat {
        self.spec_storage_word(a, k).as_nat()
    }

    /// The stored word of storage slot `k` of account `a`.
    pub open spec fn spec_storage_word(self, a: Address, k: Word) -> Word {
        match lookup2(self.storage@, a, k) {
            Some(w) => w,
            None => Word { l0: 0, l1: 0, l2: 0, l3: 0 },
        }
    }

    pub open spec fn spec_warm_account(self, a: Address) -> bool {
        lookup(self.warm_accounts@, a) == Some(true)
    }

    pub open spec fn spec_warm_slot(self, a: Address, k: Word) -> bool {
        lookup2(self.warm_slots@, a, k) == Some(true)
    }

    /// The whole database as one key-to-value map; booleans read as 0 or 1.
    pub open spec fn db_read(self, k: DbKey) -> int {
        match k {
            DbKey::AccountNonce { address } => self.spec_account(address).nonce as int,
            DbKey::AccountBalance { address } => self.spec_account(address).balance.as_nat() as int,
            DbKey::AccountCodeHash { address } => self.spec_account(address).code_hash.as_nat() as int,
            DbKey::StorageSlot { address, key } => self.spec_storage(address, key) as int,
            DbKey::WarmAccount { address } => if self.spec_warm_account(address) { 1int } else { 0int },
            DbKey::WarmSlot { address, key } => if self.spec_warm_slot(address, key) { 1int } else { 0int },
            DbKey::Refund => self.refund as int,
        }
    }

    pub fn new() -> (r: StateDB)
        ensures
            forall|a: Address| #[trigger] r.spec_account(a) == (Account {
                nonce: 0,
                balance: Word { l0: 0, l1: 0, l2: 0, l3: 0 },
                code_hash: Word { l0: 0, l1: 0, l2: 0, l3: 0 },
            }),
            forall|a: Address, k: Word| #[trigger] r.spec_storage(a, k) == 0,
            forall|a: Address| !(#[trigger] r.spec_warm_account(a)),
            forall|a: Address, k: Word| !(#[trigger] r.spec_warm_slot(a, k)),
            r.refund == 0,
    {
        StateDB {
            accounts: Vec::new(),
            storage: Vec::new(),
            warm_accounts: Vec::new(),
            warm_slots: Vec::new(),
            refund: 0,
        }
    }

    /// Whether `a` was ever written (it "exists" in the database).
    pub fn account_exists(&self, a: &Address) -> (r: bool)
        ensures
            r == lookup(self.accounts@, *a).is_some(),
    {
        let mut i = self.accounts.len();
        let ghost s = self.accounts@;
        proof {
            assert(s.take(s.len() as int) =~= s);
        }
        while i > 0
            invariant
                i <= s.len(),
                s == self.accounts@,
                lookup(s, *a) == lookup(s.take(i as int), *a),
            decreases i,
        {
            i = i - 1;
            let e = &self.accounts[i];
            proof {
                assert(s.take(i + 1).drop_last() =~= s.take(i as int));
                assert(s.take(i + 1).last() == s[i as int]);
            }
            if e.0 == *a {
                return true;
            }
        }
        proof {
            assert(s.take(0) =~= Seq::<(Address, Account)>::empty());
        }
        false
    }

    /// Reads the account bound to `a`, defaulting to the empty account.
    pub fn get_account(&self, a: &Address) -> (r: Account)
        ensures
            r == self.spec_account(*a),
    {
        let mut i = self.accounts.len();
        let ghost s = self.accounts@;
        proof {
            assert(s.take(s.len() as int) =~= s);
        }
        while i > 0
            invariant
                i <= s.len(),
                s == self.accounts@,
                lookup(s, *a) == lookup(s.take(i as int), *a),
            decreases i,
        {
            i = i - 1;
            let e = &self.accounts[i];
            proof {
                assert(s.take(i + 1).drop_last() =~= s.take(i as int));
                assert(s.take(i + 1).last() == s[i as int]);
            }
            if e.0 == *a {
                return e.1;
            }
        }
        proof {
            assert(s.take(0) =~= Seq::<(Address, Account)>::empty());
        }
        Account {
            nonce: 0,
            balance: Word::zero(),
            code_hash: Word::zero(),
        }
    }

    /// Rebinds `a` to `acct`, leaving every other database key unchanged.
    pub fn set_account(&mut self, a: Address, acct: Account)
        ensures
            final(self).spec_account(a) == acct,
            lookup(final(self).accounts@, a) == Some(acct),
            forall|b: Address|
                b != a ==> #[trigger] final(self).spec_account(b) == old(self).spec_account(b),
            forall|b: Address|
                b != a ==> #[trigger] lookup(final(self).accounts@, b)
                    == lookup(old(self).accounts@, b),
            final(self).storage@ == old(self).storage@,
            final(self).warm_accounts@ == old(self).warm_accounts@,
            final(self).warm_slots@ == old(self).warm_slots@,
            final(self).refund == old(self).refund,
            forall|k: DbKey| !db_key_of_account(k, a) ==> #[trigger] final(self).db_read(k)
                == old(self).db_read(k),
    {
        let ghost s = self.accounts@;
        self.accounts.push((a, acct));
        proof {
            assert forall|b: Address| true implies lookup(final(self).accounts@, b)
                == if b == a { Some(acct) } else { lookup(s, b) } by {
                lemma_lookup_push(s, (a, acct), b);
            }
        }
    }

    /// Reads storage slot `k` of `a`, zero if never written.
    pub fn get_storage(&self, a: &Address, k: &Word) -> (r: Word)
        ensures
            r == self.spec_storage_word(*a, *k),
            r.as_nat() == self.spec_storage(*a, *k),
    {
        let mut i = self.storage.len();
        let ghost s = self.storage@;
        proof {
            assert(s.take(s.len() as int) =~= s);
        }
        while i > 0
            invariant
                i <= s.len(),
                s == self.storage@,
                lookup2(s, *a, *k) == lookup2(s.take(i as int), *a, *k),
            decreases i,
        {
            i = i - 1;
            let e = &self.storage[i];
            proof {
                assert(s.take(i + 1).drop_last() =~= s.take(i as int));
                assert(s.take(i + 1).last() == s[i as int]);
            }
            if e.0 == *a && e.1 == *k {
                return e.2;
            }
        }
        proof {
            assert(s.take(0) =~= Seq::<(Address, Word, Word)>::empty());
        }
        Word::zero()
    }

    /// Rebinds storage slot `k` of `a`, leaving every other key unchanged.
    pub fn set_storage(&mut self, a: Address, k: Word, v: Word)
        ensures
            final(self).spec_storage_word(a, k) == v,
            final(self).spec_storage(a, k) == v.as_nat(),
            forall|b: Address, k2: Word|
                !(b == a && k2 == k) ==> #[trigger] final(self).spec_storage_word(b, k2)
                    == old(self).spec_storage_word(b, k2),
            forall|b: Address, k2: Word|
                !(b == a && k2 == k) ==> #[trigger] final(self).spec_storage(b, k2)
                    == old(self).spec_storage(b, k2),
            final(self).accounts@ == old(self).accounts@,
            final(self).warm_accounts@ == old(self).warm_accounts@,
            final(self).warm_slots@ == old(self).warm_slots@,
            final(self).refund == old(self).refund,
            forall|k2: DbKey| k2 != (DbKey::StorageSlot { address: a, key: k })
                ==> #[trigger] final(self).db_read(k2) == old(self).db_read(k2),
    {
        let ghost s = self.storage@;
        self.storage.push((a, k, v));
        proof {
            assert forall|b: Address, k2: Word| true implies lookup2(final(self).storage@, b, k2)
                == if b == a && k2 == k { Some(v) } else { lookup2(s, b, k2) } by {
                lemma_lookup2_push(s, (a, k, v), b, k2);
            }
        }
    }

    /// Warms address `a`; returns true when it was cold before.
    pub fn add_account_to_access_list(&mut self, a: Address) -> (added: bool)
        ensures
            added == !old(self).spec_warm_account(a),
            final(self).spec_warm_account(a),
            forall|b: Address|
                b != a ==> #[trigger] final(self).spec_warm_account(b)
                    == old(self).spec_warm_account(b),
            final(self).accounts@ == old(self).accounts@,
            final(self).storage@ == old(self).storage@,
            final(self).warm_slots@ == old(self).warm_slots@,
            final(self).refund == old(self).refund,
            forall|k: DbKey| k != (DbKey::WarmAccount { address: a })
                ==> #[trigger] final(self).db_read(k) == old(self).db_read(k),
    {
        let was_warm = self.check_account_in_access_list(&a);
        self.set_warm_account(a, true);
        !was_warm
    }

    /// Sets the warm flag of address `a`, leaving every other database key
    /// unchanged.
    pub fn set_warm_account(&mut self, a: Address, w: bool)
        ensures
            final(self).spec_warm_account(a) == w,
            forall|b: Address|
                b != a ==> #[trigger] final(self).spec_warm_account(b)
                    == old(self).spec_warm_account(b),
            final(self).accounts@ == old(self).accounts@,
            final(self).storage@ == old(self).storage@,
            final(self).warm_slots@ == old(self).warm_slots@,
            final(self).refund == old(self).refund,
            forall|k: DbKey| k != (DbKey::WarmAccount { address: a })
                ==> #[trigger] final(self).db_read(k) == old(self).db_read(k),
    {
        let ghost s = self.warm_accounts@;
        self.warm_accounts.push((a, w));
        proof {
            assert forall|b: Address| true implies lookup(final(self).warm_accounts@, b)
                == if b == a { Some(w) } else { lookup(s, b) } by {
                lemma_lookup_push(s, (a, w), b);
            }
        }
    }

    /// Whether address `a` is warm in the current transaction.
    pub fn check_account_in_access_list(&self, a: &Address) -> (r: bool)
        ensures
            r == self.spec_warm_account(*a),
    {
        let mut i = self.warm_accounts.len();
        let ghost s = self.warm_accounts@;
        proof {
            assert(s.take(s.len() as int) =~= s);
        }
        while i > 0
            invariant
                i <= s.len(),
                s == self.warm_accounts@,
                lookup(s, *a) == lookup(s.take(i as int), *a),
            decreases i,
        {
            i = i - 1;
            let e = &self.warm_accounts[i];
            proof {
                assert(s.take(i + 1).drop_last() =~= s.take(i as int));
                assert(s.take(i + 1).last() == s[i as int]);
            }
            if e.0 == *a {
                return e.1;
            }
        }
        proof {
            assert(s.take(0) =~= Seq::<(Address, bool)>::empty());
        }
        false
    }

    /// Warms storage slot `(a, k)`; returns true when it was cold before.
    pub fn add_account_storage_to_access_list(&mut self, a: Address, k: Word) -> (added: bool)
        ensures
            added == !old(self).spec_warm_slot(a, k),
            final(self).spec_warm_slot(a, k),
            forall|b: Address, k2: Word|
                !(b == a && k2 == k) ==> #[trigger] final(self).spec_warm_slot(b, k2)
                    == old(self).spec_warm_slot(b, k2),
            final(self).accounts@ == old(self).accounts@,
            final(self).storage@ == old(self).storage@,
            final(self).warm_accounts@ == old(self).warm_accounts@,
            final(self).refund == old(self).refund,
            forall|k2: DbKey| k2 != (DbKey::WarmSlot { address: a, key: k })
                ==> #[trigger] final(self).db_read(k2) == old(self).db_read(k2),
    {
        let was_warm = self.check_account_storage_in_access_list(&a, &k);
        self.set_warm_slot(a, k, true);
        !was_warm
    }

    /// Sets the warm flag of storage slot `(a, k)`, leaving every other
    /// database key unchanged.
    pub fn set_warm_slot(&mut self, a: Address, k: Word, w: bool)
        ensures
            final(self).spec_warm_slot(a, k) == w,
            forall|b: Address, k2: Word|
                !(b == a && k2 == k) ==> #[trigger] final(self).spec_warm_slot(b, k2)
                    == old(self).spec_warm_slot(b, k2),
            final(self).accounts@ == old(self).accounts@,
            final(self).storage@ == old(self).storage@,
            final(self).warm_accounts@ == old(self).warm_accounts@,
            final(self).refund == old(self).refund,
            forall|k2: DbKey| k2 != (DbKey::WarmSlot { address: a, key: k })
                ==> #[trigger] final(self).db_read(k2) == old(self).db_read(k2),
    {
        let ghost s = self.warm_slots@;
        self.warm_slots.push((a, k, w));
        proof {
            assert forall|b: Address, k2: Word| true implies lookup2(final(self).warm_slots@, b, k2)
                == if b == a && k2 == k { Some(w) } else {
                    lookup2(s, b, k2)
                } by {
                lemma_lookup2_push(s, (a, k, w), b, k2);
            }
        }
    }

    /// Whether storage slot `(a, k)` is warm in the current transaction.
    pub fn check_account_storage_in_access_list(&self, a: &Address, k: &Word) -> (r: bool)
        ensures
            r == self.spec_warm_slot(*a, *k),
    {
        let mut i = self.warm_slots.len();
        let ghost s = self.warm_slots@;
        proof {
            assert(s.take(s.len() as int) =~= s);
        }
        while i > 0
            invariant
                i <= s.len(),
                s == self.warm_slots@,
                lookup2(s, *a, *k) == lookup2(s.take(i as int), *a, *k),
            decreases i,
        {
            i = i - 1;
            let e = &self.warm_slots[i];
            proof {
                assert(s.take(i + 1).drop_last() =~= s.take(i as int));
                assert(s.take(i + 1).last() == s[i as int]);
            }
            if e.0 == *a && e.1 == *k {
                return e.2;
            }
        }
        proof {
            assert(s.take(0) =~= Seq::<(Address, Word, bool)>::empty());
        }
        false
    }

    /// Forgets all warm flags, entering a new transaction's access list.
    pub fn clear_access_list(&mut self)
        ensures
            forall|a: Address| !(#[trigger] final(self).spec_warm_account(a)),
            forall|a: Address, k: Word| !(#[trigger] final(self).spec_warm_slot(a, k)),
            final(self).accounts@ == old(self).accounts@,
            final(self).storage@ == old(self).storage@,
            final(self).refund == old(self).refund,
    {
        self.warm_accounts = Vec::new();
        self.warm_slots = Vec::new();
    }

    /// The current transaction's accumulated refund.
    pub fn refund(&self) -> (r: u64)
        ensures
            r == self.refund,
    {
        self.refund
    }

    /// Sets the refund counter, leaving every other database key unchanged.
    pub fn set_refund(&mut self, v: u64)
        ensures
            final(self).refund == v,
            final(self).accounts@ == old(self).accounts@,
            final(self).storage@ == old(self).storage@,
            final(self).warm_accounts@ == old(self).warm_accounts@,
            final(self).warm_slots@ == old(self).warm_slots@,
            forall|k: DbKey| k != DbKey::Refund
                ==> #[trigger] final(self).db_read(k) == old(self).db_read(k),
    {
        self.refund = v;
    }

    /// Increments the nonce of `a`; returns the new nonce.
    pub fn increase_nonce(&mut self, a: &Address) -> (r: u64)
        requires
            old(self).spec_account(*a).nonce < u64::MAX,
        ensures
            r == old(self).spec_account(*a).nonce + 1,
            final(self).spec_account(*a) == (Account { nonce: r, ..old(self).spec_account(*a) }),
            lookup(final(self).accounts@, *a).is_some(),
            forall|b: Address|
                b != *a ==> #[trigger] lookup(final(self).accounts@, b)
                    == lookup(old(self).accounts@, b),
            forall|b: Address|
                b != *a ==> #[trigger] final(self).spec_account(b) == old(self).spec_account(b),
            final(self).storage@ == old(self).storage@,
            final(self).warm_accounts@ == old(self).warm_accounts@,
            final(self).warm_slots@ == old(self).warm_slots@,
            final(self).refund == old(self).refund,
    {
        let acct = self.get_account(a);
        let next = acct.nonce + 1;
        self.set_account(*a, Account { nonce: next, ..acct });
        next
    }

    /// Empties the account and erases its storage; used by self-destruction
    /// inside a persistent call.
    pub fn destruct_account(&mut self, a: Address)
        ensures
            final(self).spec_account(a) == (Account {
                nonce: 0,
                balance: Word { l0: 0, l1: 0, l2: 0, l3: 0 },
                code_hash: Word { l0: 0, l1: 0, l2: 0, l3: 0 },
            }),
            forall|b: Address|
                b != a ==> #[trigger] final(self).spec_account(b) == old(self).spec_account(b),
            forall|k: Word| #[trigger] final(self).spec_storage(a, k) == 0,
            forall|b: Address, k: Word|
                b != a ==> #[trigger] final(self).spec_storage(b, k) == old(self).spec_storage(b, k),
            final(self).warm_accounts@ == old(self).warm_accounts@,
            final(self).warm_slots@ == old(self).warm_slots@,
            final(self).refund == old(self).refund,
    {
        self.set_account(a, Account {
            nonce: 0,
            balance: Word::zero(),
            code_hash: Word::zero(),
        });
        let ghost accs = self.accounts@;
        let ghost s0 = self.storage@;
        let mut kept: Vec<(Address, Word, Word)> = Vec::new();
        let n = self.storage.len();
        let mut i: usize = 0;
        proof {
            assert(s0.take(0) =~= Seq::<(Address, Word, Word)>::empty());
        }
        while i < n
            invariant
                i <= n,
                n == s0.len(),
                self.storage@ == s0,
                self.accounts@ == accs,
                self.warm_accounts@ == old(self).warm_accounts@,
                self.warm_slots@ == old(self).warm_slots@,
                self.refund == old(self).refund,
                kept@ == remove_addr(s0.take(i as int), a),
            decreases n - i,
        {
            let e = self.storage[i];
            proof {
                assert(s0.take(i + 1).drop_last() =~= s0.take(i as int));
                assert(s0.take(i + 1).last() == s0[i as int]);
            }
            if e.0 != a {
                kept.push(e);
            }
            i = i + 1;
        }
        proof {
            assert(s0.take(n as int) =~= s0);
        }
        self.storage = kept;
        proof {
            assert forall|b: Address, k: Word| true implies lookup2(final(self).storage@, b, k)
                == if b == a { None::<Word> } else { lookup2(s0, b, k) } by {
                lemma_remove_addr(s0, a, b, k);
            }
        }
    }
}

/// Whether `k` addresses a balance, nonce, code-hash or storage field of `a`.
pub open spec fn db_key_of_account(k: DbKey, a: Address) -> bool {
    match k {
        DbKey::AccountNonce { address } => address == a,
        DbKey::AccountBalance { address } => address == a,
        DbKey::AccountCodeHash { address } => address == a,
        DbKey::StorageSlot { address, key } => address == a,
        _ => false,
    }
}

} // verus!
