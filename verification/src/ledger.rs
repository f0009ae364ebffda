//! The ledger: authoritative account state.
//!
//! An [`Entry`] is one account: a coin balance, contract bytecode (empty for
//! plain wallets) and a key/value datastore.  A [`Ledger`] maps addresses to
//! entries.  Balance edits use checked arithmetic and report exactly why they
//! were refused; datastore and bytecode writes auto-create a default entry,
//! which is the only implicit-creation path.

use vstd::prelude::*;

use crate::assoc::{kv_find, kv_map, kv_unique, lemma_kv_map_dom, lemma_kv_map_index,
    lemma_kv_map_push, lemma_kv_map_update, KV};
use crate::errors::ExecError;

verus! {

/// The mathematical model of one account entry.
#[verifier::ext_equal]
pub ghost struct EntryV {
    pub balance: u64,
    pub bytecode: Seq<u8>,
    pub datastore: Map<Seq<char>, Seq<u8>>,
}

/// One account: balance, bytecode and datastore.
#[derive(Debug)]
pub struct Entry {
    pub balance: u64,
    pub bytecode: Vec<u8>,
    pub datastore: Vec<KV<Vec<u8>>>,
}

impl View for Entry {
    type V = EntryV;

    open spec fn view(&self) -> EntryV {
        EntryV {
            balance: self.balance,
            bytecode: self.bytecode@,
            datastore: kv_map(self.datastore@),
        }
    }
}

impl Entry {
    /// The datastore vector carries no duplicate key.
    pub open spec fn wf(&self) -> bool {
        kv_unique(self.datastore@)
    }

    /// A fresh wallet entry: zero balance, no bytecode, empty datastore.
    pub fn new_default() -> (r: Entry)
        ensures
            r.wf(),
            r@ == (EntryV {
                balance: 0,
                bytecode: Seq::<u8>::empty(),
                datastore: Map::<Seq<char>, Seq<u8>>::empty(),
            }),
    {
        Entry { balance: 0, bytecode: Vec::new(), datastore: Vec::new() }
    }

    /// A copy of the entry's bytecode.
    pub fn get_bytecode(&self) -> (r: Vec<u8>)
        ensures
            r@ == self@.bytecode,
    {
        clone_bytes(&self.bytecode)
    }

    /// The value stored under `key`, or empty bytes if the key is absent:
    /// reads never fail on a missing datastore key.
    pub fn get_data(&self, key: &String) -> (r: Vec<u8>)
        requires
            self.wf(),
        ensures
            r@ == if self@.datastore.contains_key(key@) {
                self@.datastore[key@]
            } else {
                Seq::<u8>::empty()
            },
    {
        proof {
            lemma_kv_map_dom(self.datastore@);
        }
        match kv_find(&self.datastore, key) {
            Some(i) => {
                proof {
                    lemma_kv_map_index(self.datastore@, i as int);
                }
                clone_bytes(&self.datastore[i].val)
            },
            None => Vec::new(),
        }
    }

    /// Whether the datastore holds `key`.
    pub fn has_data(&self, key: &String) -> (r: bool)
        requires
            self.wf(),
        ensures
            r == self@.datastore.contains_key(key@),
    {
        proof {
            lemma_kv_map_dom(self.datastore@);
        }
        match kv_find(&self.datastore, key) {
            Some(i) => {
                proof {
                    lemma_kv_map_index(self.datastore@, i as int);
                }
                true
            },
            None => false,
        }
    }

    /// Create-or-update of one datastore key; balance and bytecode are
    /// untouched.
    pub fn insert_data(&mut self, key: String, value: Vec<u8>)
        requires
            old(self).wf(),
        ensures
            final(self).wf(),
            final(self)@ == (EntryV {
                datastore: old(self)@.datastore.insert(key@, value@),
                ..old(self)@
            }),
    {
        let ghost s0 = self.datastore@;
        match kv_find(&self.datastore, &key) {
            Some(i) => {
                let p = KV { key, val: value };
                proof {
                    lemma_kv_map_update(s0, i as int, p);
                }
                self.datastore.set(i, p);
            },
            None => {
                let p = KV { key, val: value };
                proof {
                    lemma_kv_map_push(s0, p);
                    assert(kv_unique(s0.push(p)));
                }
                self.datastore.push(p);
            },
        }
        assert(self@ =~= (EntryV {
            datastore: old(self)@.datastore.insert(key@, value@),
            ..old(self)@
        }));
    }

    /// A full copy of the entry.
    pub fn duplicate(&self) -> (r: Entry)
        ensures
            r@ == self@,
            r.wf() == self.wf(),
    {
        let mut datastore: Vec<KV<Vec<u8>>> = Vec::new();
        let n = self.datastore.len();
        let mut i: usize = 0;
        while i < n
            invariant
                n == self.datastore@.len(),
                0 <= i <= n,
                datastore@.len() == i,
                forall|j: int| #![trigger datastore@[j]] 0 <= j < i ==> {
                    &&& datastore@[j].key@ == self.datastore@[j].key@
                    &&& datastore@[j].val@ == self.datastore@[j].val@
                },
            decreases n - i,
        {
            let p = &self.datastore[i];
            datastore.push(KV { key: p.key.clone(), val: clone_bytes(&p.val) });
            i = i + 1;
        }
        let r = Entry { balance: self.balance, bytecode: clone_bytes(&self.bytecode), datastore };
        proof {
            lemma_kv_map_congruent(r.datastore@, self.datastore@);
        }
        r
    }
}

/// Association vectors whose pairs agree in view denote the same map and
/// agree on key uniqueness.
pub proof fn lemma_kv_map_congruent<T: View>(a: Seq<KV<T>>, b: Seq<KV<T>>)
    requires
        a.len() == b.len(),
        forall|j: int| #![trigger a[j]] 0 <= j < a.len() ==> a[j].key@ == b[j].key@ && a[j].val@
            == b[j].val@,
    ensures
        kv_map(a) == kv_map(b),
        kv_unique(a) == kv_unique(b),
    decreases a.len(),
{
    if a.len() > 0 {
        lemma_kv_map_congruent(a.drop_last(), b.drop_last());
        assert(kv_map(a) =~= kv_map(b));
        assert(forall|i: int, j: int| 0 <= i < j < a.len() ==> a[i].key@ == b[i].key@
            && a[j].key@ == b[j].key@);
    }
}

/// A byte-for-byte copy of `v`.
pub fn clone_bytes(v: &Vec<u8>) -> (r: Vec<u8>)
    ensures
        r@ == v@,
{
    let r = v.clone();
    assert(r@ =~= v@);
    r
}

/// The model of the whole ledger: a finite map from address to entry model.
pub type LedgerV = Map<Seq<char>, EntryV>;

/// The authoritative map from address to account entry.
pub struct Ledger {
    pub accounts: Vec<KV<Entry>>,
}

impl View for Ledger {
    type V = LedgerV;

    open spec fn view(&self) -> LedgerV {
        kv_map(self.accounts@)
    }
}

impl Ledger {
    /// Addresses are pairwise distinct and every stored entry is well formed.
    pub open spec fn wf(&self) -> bool {
        &&& kv_unique(self.accounts@)
        &&& forall|i: int| #![trigger self.accounts@[i]] 0 <= i < self.accounts@.len()
            ==> self.accounts@[i].val.wf()
    }

    /// An empty ledger.
    pub fn new() -> (r: Ledger)
        ensures
            r.wf(),
            r@ == Map::<Seq<char>, EntryV>::empty(),
    {
        Ledger { accounts: Vec::new() }
    }

    /// A copy of the entry at `address`; fails with `NotFound` exactly when
    /// the address has no entry.
    pub fn get(&self, address: &String) -> (r: Result<Entry, ExecError>)
        requires
            self.wf(),
        ensures
            match r {
                Ok(e) => self@.contains_key(address@) && e@ == self@[address@] && e.wf(),
                Err(e) => e == ExecError::NotFound && !self@.contains_key(address@),
            },
    {
        proof {
            lemma_kv_map_dom(self.accounts@);
        }
        match kv_find(&self.accounts, address) {
            Some(i) => {
                proof {
                    lemma_kv_map_index(self.accounts@, i as int);
                }
                Ok(self.accounts[i].val.duplicate())
            },
            None => Err(ExecError::NotFound),
        }
    }

    /// Whether `address` has an entry.
    pub fn contains(&self, address: &String) -> (r: bool)
        requires
            self.wf(),
        ensures
            r == self@.contains_key(address@),
    {
        proof {
            lemma_kv_map_dom(self.accounts@);
        }
        match kv_find(&self.accounts, address) {
            Some(i) => {
                proof {
                    lemma_kv_map_index(self.accounts@, i as int);
                }
                true
            },
            None => false,
        }
    }

    /// Replace-or-create the whole entry at `address`.
    pub fn set_entry(&mut self, address: String, entry: Entry)
        requires
            old(self).wf(),
            entry.wf(),
        ensures
            final(self).wf(),
            final(self)@ == old(self)@.insert(address@, entry@),
    {
        let ghost s0 = self.accounts@;
        match kv_find(&self.accounts, &address) {
            Some(i) => {
                let p = KV { key: address, val: entry };
                proof {
                    lemma_kv_map_update(s0, i as int, p);
                    assert(kv_map(s0.update(i as int, p)) == kv_map(s0).insert(p.key@, p.val@));
                }
                self.accounts.set(i, p);
                assert(forall|j: int| #![trigger self.accounts@[j]] 0 <= j
                    < self.accounts@.len() && j != i ==> self.accounts@[j] == s0[j]);
            },
            None => {
                let p = KV { key: address, val: entry };
                proof {
                    lemma_kv_map_push(s0, p);
                    assert(kv_unique(s0.push(p)));
                }
                self.accounts.push(p);
            },
        }
    }

    /// Create-or-update of the bytecode at `address`: a missing entry is
    /// created with balance 0 and an empty datastore.
    pub fn set_module(&mut self, address: String, module: &Vec<u8>)
        requires
            old(self).wf(),
        ensures
            final(self).wf(),
            final(self)@ == old(self)@.insert(address@, spec_set_module(old(self)@, address@,
                module@)),
    {
        let mut entry = match self.get(&address) {
            Ok(e) => e,
            Err(_) => Entry::new_default(),
        };
        entry.bytecode = clone_bytes(module);
        assert(entry@ =~= spec_set_module(self@, address@, module@));
        self.set_entry(address, entry);
    }

    /// Create-or-update of one datastore key at `address`: a missing entry is
    /// created with balance 0 and empty bytecode.
    pub fn set_data_entry(&mut self, address: String, key: String, value: Vec<u8>)
        requires
            old(self).wf(),
        ensures
            final(self).wf(),
            final(self)@ == old(self)@.insert(address@, spec_set_data(old(self)@, address@, key@,
                value@)),
    {
        let mut entry = match self.get(&address) {
            Ok(e) => e,
            Err(_) => Entry::new_default(),
        };
        entry.insert_data(key, value);
        assert(entry@ =~= spec_set_data(old(self)@, address@, key@, value@));
        self.set_entry(address, entry);
    }

    /// Debit `amount` at `address` with checked arithmetic.  Succeeds exactly
    /// when the entry exists and covers the amount; on failure the ledger is
    /// unchanged and the error tells which condition was violated.
    pub fn sub(&mut self, address: &String, amount: u64) -> (r: Result<(), ExecError>)
        requires
            old(self).wf(),
        ensures
            final(self).wf(),
            match r {
                Ok(()) => {
                    &&& old(self)@.contains_key(address@)
                    &&& amount <= old(self)@[address@].balance
                    &&& final(self)@ == old(self)@.insert(address@, EntryV {
                        balance: (old(self)@[address@].balance - amount) as u64,
                        ..old(self)@[address@]
                    })
                },
                Err(e) => {
                    &&& final(self)@ == old(self)@
                    &&& *final(self) == *old(self)
                    &&& if !old(self)@.contains_key(address@) {
                        e == ExecError::NotFound
                    } else {
                        e == ExecError::InsufficientBalance && amount > old(self)@[
                            address@].balance
                    }
                },
            },
    {
        proof {
            lemma_kv_map_dom(self.accounts@);
        }
        match kv_find(&self.accounts, address) {
            Some(i) => {
                proof {
                    lemma_kv_map_index(self.accounts@, i as int);
                }
                let bal = self.accounts[i].val.balance;
                if amount <= bal {
                    let mut entry = self.accounts[i].val.duplicate();
                    entry.balance = bal - amount;
                    assert(entry@ =~= (EntryV { balance: (bal - amount) as u64, ..self@[
                        address@] }));
                    self.set_entry(clone_string(address), entry);
                    Ok(())
                } else {
                    Err(ExecError::InsufficientBalance)
                }
            },
            None => Err(ExecError::NotFound),
        }
    }

    /// Credit `amount` at `address` with checked arithmetic.  Succeeds exactly
    /// when the entry exists and the new balance fits in 64 bits; on failure
    /// the ledger is unchanged and the error tells which condition was
    /// violated.
    pub fn add(&mut self, address: &String, amount: u64) -> (r: Result<(), ExecError>)
        requires
            old(self).wf(),
        ensures
            final(self).wf(),
            match r {
                Ok(()) => {
                    &&& old(self)@.contains_key(address@)
                    &&& old(self)@[address@].balance + amount <= u64::MAX
                    &&& final(self)@ == old(self)@.insert(address@, EntryV {
                        balance: (old(self)@[address@].balance + amount) as u64,
                        ..old(self)@[address@]
                    })
                },
                Err(e) => {
                    &&& final(self)@ == old(self)@
                    &&& *final(self) == *old(self)
                    &&& if !old(self)@.contains_key(address@) {
                        e == ExecError::NotFound
                    } else {
                        e == ExecError::BalanceOverflow && old(self)@[address@].balance + amount
                            > u64::MAX
                    }
                },
            },
    {
        proof {
            lemma_kv_map_dom(self.accounts@);
        }
        match kv_find(&self.accounts, address) {
            Some(i) => {
                proof {
                    lemma_kv_map_index(self.accounts@, i as int);
                }
                let bal = self.accounts[i].val.balance;
                if amount <= u64::MAX - bal {
                    let mut entry = self.accounts[i].val.duplicate();
                    entry.balance = bal + amount;
                    assert(entry@ =~= (EntryV { balance: (bal + amount) as u64, ..self@[
                        address@] }));
                    self.set_entry(clone_string(address), entry);
                    Ok(())
                } else {
                    Err(ExecError::BalanceOverflow)
                }
            },
            None => Err(ExecError::NotFound),
        }
    }
}

/// The entry that a bytecode write leaves at `address`: the old entry with new
/// bytecode, or a fresh one carrying only the bytecode.
pub open spec fn spec_set_module(l: LedgerV, address: Seq<char>, module: Seq<u8>) -> EntryV {
    if l.contains_key(address) {
        EntryV { bytecode: module, ..l[address] }
    } else {
        EntryV { balance: 0, bytecode: module, datastore: Map::empty() }
    }
}

/// The entry that a datastore write leaves at `address`: the old entry with
/// the key updated, or a fresh one carrying only that key.
pub open spec fn spec_set_data(l: LedgerV, address: Seq<char>, key: Seq<char>, value: Seq<u8>)
    -> EntryV {
    if l.contains_key(address) {
        EntryV { datastore: l[address].datastore.insert(key, value), ..l[address] }
    } else {
        EntryV { balance: 0, bytecode: Seq::empty(), datastore: Map::empty().insert(key, value) }
    }
}

/// The ledger a coin transfer leaves behind, or the exact error that refuses
/// it: the debit happens first; a credit that would overflow (or a missing
/// credit target) undoes the debit, so an error leaves the ledger as it was.
pub open spec fn spec_transfer(l: LedgerV, from: Seq<char>, to: Seq<char>, amount: u64) -> Result<
    LedgerV,
    ExecError,
> {
    if !l.contains_key(from) {
        Err(ExecError::NotFound)
    } else if amount > l[from].balance {
        Err(ExecError::InsufficientBalance)
    } else {
        let l1 = l.insert(from, EntryV { balance: (l[from].balance - amount) as u64, ..l[from] });
        if !l1.contains_key(to) {
            Err(ExecError::NotFound)
        } else if l1[to].balance + amount > u64::MAX {
            Err(ExecError::BalanceOverflow)
        } else {
            Ok(l1.insert(to, EntryV { balance: (l1[to].balance + amount) as u64, ..l1[to] }))
        }
    }
}

/// A copy of `s`.
pub fn clone_string(s: &String) -> (r: String)
    ensures
        r == *s,
{
    s.clone()
}

} // verus!
