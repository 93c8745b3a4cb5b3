//! The world state store: accounts by address, total read accessors, and
//! the application of a change set.

use std::collections::{BTreeMap, BTreeSet};
use vstd::prelude::*;

use crate::account::{default_account, AccountView, MockAccount};
use crate::changeset::{codes_view, writes_address, ChangeSet, ChangeSetView};
use crate::word::{is_zero, zero_address, zero_word, Address, Word};

verus! {

/// The model of a world state: the account record of each present address.
pub type StateView = Map<Address, AccountView>;

/// The account that address `a` reads as: its record, or the default one.
pub open spec fn account_of(s: StateView, a: Address) -> AccountView {
    if s.contains_key(a) {
        s[a]
    } else {
        default_account()
    }
}

/// The value of slot `k` in a storage map: the stored value, or zero.
pub open spec fn slot_of(st: Map<Word, Word>, k: Word) -> Word {
    if st.contains_key(k) {
        st[k]
    } else {
        zero_word()
    }
}

/// Every account of the state holds no zero-valued storage slot.
pub open spec fn state_wf(s: StateView) -> bool {
    forall|a: Address| #[trigger] s.contains_key(a) ==> s[a].wf()
}

/// The first phase: each listed address gets its new balance, created with
/// defaults where it had no record.
pub open spec fn with_balances(s: StateView, b: Map<Address, Word>) -> StateView {
    Map::new(
        |a: Address| s.contains_key(a) || b.contains_key(a),
        |a: Address|
            if b.contains_key(a) {
                account_of(s, a).with_balance(b[a])
            } else {
                s[a]
            },
    )
}

/// The second phase: each listed address gets its new code.
pub open spec fn with_codes(s: StateView, c: Map<Address, Seq<u8>>) -> StateView {
    Map::new(
        |a: Address| s.contains_key(a) || c.contains_key(a),
        |a: Address|
            if c.contains_key(a) {
                account_of(s, a).with_code(c[a])
            } else {
                s[a]
            },
    )
}

/// The third phase: each listed address gets its new nonce.
pub open spec fn with_nonces(s: StateView, n: Map<Address, Word>) -> StateView {
    Map::new(
        |a: Address| s.contains_key(a) || n.contains_key(a),
        |a: Address|
            if n.contains_key(a) {
                account_of(s, a).with_nonce(n[a])
            } else {
                s[a]
            },
    )
}

/// The fourth phase: each listed address has its persistent storage emptied.
pub open spec fn with_storage_resets(s: StateView, r: Set<Address>) -> StateView {
    Map::new(
        |a: Address| s.contains_key(a) || r.contains(a),
        |a: Address|
            if r.contains(a) {
                account_of(s, a).with_storage(Map::empty())
            } else {
                s[a]
            },
    )
}

/// Storage map `st` of address `a` after the writes `w`: a slot written
/// with zero is removed, one written with another value holds it.
pub open spec fn written_slots(
    st: Map<Word, Word>,
    w: Map<(Address, Word), Word>,
    a: Address,
) -> Map<Word, Word> {
    Map::new(
        |k: Word|
            if w.contains_key((a, k)) {
                w[(a, k)] != zero_word()
            } else {
                st.contains_key(k)
            },
        |k: Word|
            if w.contains_key((a, k)) {
                w[(a, k)]
            } else {
                st[k]
            },
    )
}

/// The fifth phase: the storage writes, each to an account created with
/// defaults where it had no record.
pub open spec fn with_storage_writes(s: StateView, w: Map<(Address, Word), Word>) -> StateView {
    Map::new(
        |a: Address| s.contains_key(a) || writes_address(w, a),
        |a: Address|
            account_of(s, a).with_storage(written_slots(account_of(s, a).storage, w, a)),
    )
}

/// The state after change set `cs`: the six phases in their fixed order,
/// deletes last.
pub open spec fn applied(s: StateView, cs: ChangeSetView) -> StateView {
    let s1 = with_balances(s, cs.balances);
    let s2 = with_codes(s1, cs.codes);
    let s3 = with_nonces(s2, cs.nonces);
    let s4 = with_storage_resets(s3, cs.storage_resets);
    let s5 = with_storage_writes(s4, cs.storages);
    s5.remove_keys(cs.deletes)
}

/// The state after the change sets `css`, applied in order.
pub open spec fn applied_all(s: StateView, css: Seq<ChangeSetView>) -> StateView
    decreases css.len(),
{
    if css.len() == 0 {
        s
    } else {
        applied(applied_all(s, css.drop_last()), css.last())
    }
}

/// Applying a change set keeps every storage map free of zero values.
pub proof fn lemma_applied_preserves_wf(s: StateView, cs: ChangeSetView)
    requires
        state_wf(s),
    ensures
        state_wf(applied(s, cs)),
{
    let s1 = with_balances(s, cs.balances);
    let s2 = with_codes(s1, cs.codes);
    let s3 = with_nonces(s2, cs.nonces);
    let s4 = with_storage_resets(s3, cs.storage_resets);
    let s5 = with_storage_writes(s4, cs.storages);
    assert(default_account().wf());
    assert(state_wf(s1));
    assert(state_wf(s2));
    assert(state_wf(s3));
    assert(state_wf(s4));
    assert forall|a: Address| #[trigger] s5.contains_key(a) implies s5[a].wf() by {
        assert(account_of(s4, a).wf());
    }
}

/// An in-memory world state.
#[derive(Clone, Debug)]
pub struct MockBackend {
    pub state: BTreeMap<Address, MockAccount>,
}

impl View for MockBackend {
    type V = StateView;

    open spec fn view(&self) -> StateView {
        self.state@.map_values(|acc: MockAccount| acc@)
    }
}

impl Default for MockBackend {
    fn default() -> (r: MockBackend)
        ensures
            r@ == Map::<Address, AccountView>::empty(),
    {
        MockBackend::new()
    }
}

impl MockBackend {
    /// A store with no account.
    pub fn new() -> (r: MockBackend)
        ensures
            r@ == Map::<Address, AccountView>::empty(),
    {
        let r = MockBackend { state: BTreeMap::new() };
        assert(r@ =~= Map::<Address, AccountView>::empty());
        r
    }

    /// Folds change set `changeset` into the store: balances, codes, nonces,
    /// storage resets, storage writes, and deletes last. It never fails; an
    /// address without a record gets a default one before it is changed.
    pub fn apply_overlayed(&mut self, changeset: &ChangeSet)
        ensures
            final(self)@ == applied(old(self)@, changeset@),
            state_wf(old(self)@) ==> state_wf(final(self)@),
    {
        self.apply_balances(&changeset.balances);
        self.apply_codes(&changeset.codes);
        self.apply_nonces(&changeset.nonces);
        self.apply_storage_resets(&changeset.storage_resets);
        self.apply_storage_writes(&changeset.storages);
        self.apply_deletes(&changeset.deletes);
        proof {
            if state_wf(old(self)@) {
                lemma_applied_preserves_wf(old(self)@, changeset@);
            }
        }
    }

    /// Balance of `address`, zero where it has no record.
    pub fn balance(&self, address: Address) -> (r: Word)
        ensures
            r == account_of(self@, address).balance,
    {
        match self.state.get(&address) {
            Some(acc) => acc.balance,
            None => (0, 0),
        }
    }

    /// Code of `address`, empty where it has no record.
    pub fn code(&self, address: Address) -> (r: Vec<u8>)
        ensures
            r@ == account_of(self@, address).code,
    {
        match self.state.get(&address) {
            Some(acc) => acc.code.clone(),
            None => Vec::new(),
        }
    }

    /// Whether `address` has a record, whatever its values.
    pub fn account_exists(&self, address: Address) -> (r: bool)
        ensures
            r == self@.contains_key(address),
    {
        self.state.contains_key(&address)
    }

    /// Persistent storage slot `index` of `address`, zero where absent.
    pub fn storage(&self, address: Address, index: Word) -> (r: Word)
        ensures
            r == slot_of(account_of(self@, address).storage, index),
    {
        match self.state.get(&address) {
            Some(acc) => match acc.storage.get(&index) {
                Some(v) => *v,
                None => (0, 0),
            },
            None => (0, 0),
        }
    }

    /// Transient storage slot `index` of `address`, zero where absent.
    pub fn transient_storage(&self, address: Address, index: Word) -> (r: Word)
        ensures
            r == slot_of(account_of(self@, address).transient_storage, index),
    {
        match self.state.get(&address) {
            Some(acc) => match acc.transient_storage.get(&index) {
                Some(v) => *v,
                None => (0, 0),
            },
            None => (0, 0),
        }
    }

    /// Nonce of `address`, zero where it has no record.
    pub fn nonce(&self, address: Address) -> (r: Word)
        ensures
            r == account_of(self@, address).nonce,
    {
        match self.state.get(&address) {
            Some(acc) => acc.nonce,
            None => (0, 0),
        }
    }

    /// Hash of block `number`: always zero, as the store models no chain.
    pub fn block_hash(&self, number: Word) -> (r: Word)
        ensures
            r == zero_word(),
    {
        (0, 0)
    }

    /// Current block number: always zero.
    pub fn block_number(&self) -> (r: Word)
        ensures
            r == zero_word(),
    {
        (0, 0)
    }

    /// Current block's beneficiary: always the zero address.
    pub fn block_coinbase(&self) -> (r: Address)
        ensures
            r == zero_address(),
    {
        (0, 0)
    }

    /// Current block's timestamp: always zero.
    pub fn block_timestamp(&self) -> (r: Word)
        ensures
            r == zero_word(),
    {
        (0, 0)
    }

    /// Current block's difficulty: always zero.
    pub fn block_difficulty(&self) -> (r: Word)
        ensures
            r == zero_word(),
    {
        (0, 0)
    }

    /// Current block's randomness: never any, so that opcodes reading it
    /// take their fallback path.
    pub fn block_randomness(&self) -> (r: Option<Word>)
        ensures
            r is None,
    {
        None
    }

    /// Current block's gas limit: always zero.
    pub fn block_gas_limit(&self) -> (r: Word)
        ensures
            r == zero_word(),
    {
        (0, 0)
    }

    /// Current block's base fee per gas: always zero.
    pub fn block_base_fee_per_gas(&self) -> (r: Word)
        ensures
            r == zero_word(),
    {
        (0, 0)
    }

    /// Chain identifier: always zero.
    pub fn chain_id(&self) -> (r: Word)
        ensures
            r == zero_word(),
    {
        (0, 0)
    }

    /// The record of `address`, taken out of the store, or a default one.
    fn take_account(&mut self, address: Address) -> (acc: MockAccount)
        ensures
            final(self)@ == old(self)@.remove(address),
            acc@ == account_of(old(self)@, address),
    {
        let ghost before = self@;
        let acc = match self.state.remove(&address) {
            Some(acc) => acc,
            None => MockAccount::default(),
        };
        assert(self@ =~= before.remove(address));
        acc
    }

    /// Puts the record of `address` back into the store.
    fn put_account(&mut self, address: Address, acc: MockAccount)
        ensures
            final(self)@ == old(self)@.insert(address, acc@),
    {
        let ghost before = self@;
        self.state.insert(address, acc);
        assert(self@ =~= before.insert(address, acc@));
    }

    fn apply_balances(&mut self, balances: &BTreeMap<Address, Word>)
        ensures
            final(self)@ == with_balances(old(self)@, balances@),
    {
        let ghost s0 = self@;
        let ghost mut done: Map<Address, Word> = Map::empty();
        for (address, balance) in it: balances.iter()
            invariant
                self@ == with_balances(s0, done),
                forall|a: Address| #[trigger]
                    done.contains_key(a) ==> balances@.contains_key(a) && done[a]
                        == balances@[a],
                forall|j: int|
                    0 <= j < it.index() ==> #[trigger] done.contains_key(*it.seq()[j].0),
                forall|a: Address| #[trigger]
                    balances@.contains_key(a) ==> done.contains_key(a) || exists|j: int|
                        it.index() <= j < it.seq().len() && *it.seq()[j].0 == a,
        {
            let mut acc = self.take_account(*address);
            acc.balance = *balance;
            self.put_account(*address, acc);
            proof {
                done = done.insert(*address, *balance);
                assert(self@ =~= with_balances(s0, done));
            }
        }
        assert(done =~= balances@);
    }

    fn apply_codes(&mut self, codes: &BTreeMap<Address, Vec<u8>>)
        ensures
            final(self)@ == with_codes(old(self)@, codes_view(codes@)),
    {
        let ghost s0 = self@;
        let ghost mut done: Map<Address, Seq<u8>> = Map::empty();
        for (address, code) in it: codes.iter()
            invariant
                self@ == with_codes(s0, done),
                forall|a: Address| #[trigger]
                    done.contains_key(a) ==> codes@.contains_key(a) && done[a] == codes@[a]@,
                forall|j: int|
                    0 <= j < it.index() ==> #[trigger] done.contains_key(*it.seq()[j].0),
                forall|a: Address| #[trigger]
                    codes@.contains_key(a) ==> done.contains_key(a) || exists|j: int|
                        it.index() <= j < it.seq().len() && *it.seq()[j].0 == a,
        {
            let mut acc = self.take_account(*address);
            acc.code = code.clone();
            self.put_account(*address, acc);
            proof {
                done = done.insert(*address, code@);
                assert(self@ =~= with_codes(s0, done));
            }
        }
        assert(done =~= codes_view(codes@));
    }

    fn apply_nonces(&mut self, nonces: &BTreeMap<Address, Word>)
        ensures
            final(self)@ == with_nonces(old(self)@, nonces@),
    {
        let ghost s0 = self@;
        let ghost mut done: Map<Address, Word> = Map::empty();
        for (address, nonce) in it: nonces.iter()
            invariant
                self@ == with_nonces(s0, done),
                forall|a: Address| #[trigger]
                    done.contains_key(a) ==> nonces@.contains_key(a) && done[a] == nonces@[a],
                forall|j: int|
                    0 <= j < it.index() ==> #[trigger] done.contains_key(*it.seq()[j].0),
                forall|a: Address| #[trigger]
                    nonces@.contains_key(a) ==> done.contains_key(a) || exists|j: int|
                        it.index() <= j < it.seq().len() && *it.seq()[j].0 == a,
        {
            let mut acc = self.take_account(*address);
            acc.nonce = *nonce;
            self.put_account(*address, acc);
            proof {
                done = done.insert(*address, *nonce);
                assert(self@ =~= with_nonces(s0, done));
            }
        }
        assert(done =~= nonces@);
    }

    fn apply_storage_resets(&mut self, resets: &BTreeSet<Address>)
        ensures
            final(self)@ == with_storage_resets(old(self)@, resets@),
    {
        let ghost s0 = self@;
        let ghost mut done: Set<Address> = Set::empty();
        for address in it: resets.iter()
            invariant
                self@ == with_storage_resets(s0, done),
                forall|a: Address| #[trigger] done.contains(a) ==> resets@.contains(a),
                forall|j: int| 0 <= j < it.index() ==> #[trigger] done.contains(*it.seq()[j]),
                forall|a: Address| #[trigger]
                    resets@.contains(a) ==> done.contains(a) || exists|j: int|
                        it.index() <= j < it.seq().len() && *it.seq()[j] == a,
        {
            let mut acc = self.take_account(*address);
            acc.storage = BTreeMap::new();
            self.put_account(*address, acc);
            proof {
                done = done.insert(*address);
                assert(self@ =~= with_storage_resets(s0, done));
            }
        }
        assert(done =~= resets@);
    }

    fn apply_storage_writes(&mut self, storages: &BTreeMap<(Address, Word), Word>)
        ensures
            final(self)@ == with_storage_writes(old(self)@, storages@),
    {
        let ghost s0 = self@;
        let ghost mut done: Map<(Address, Word), Word> = Map::empty();
        proof {
            assert forall|a: Address| s0.contains_key(a) implies #[trigger] written_slots(
                s0[a].storage,
                done,
                a,
            ) =~= s0[a].storage by {}
            assert(with_storage_writes(s0, done) =~= s0);
        }
        for (slot, value) in it: storages.iter()
            invariant
                self@ == with_storage_writes(s0, done),
                forall|p: (Address, Word)| #[trigger]
                    done.contains_key(p) ==> storages@.contains_key(p) && done[p] == storages@[p],
                forall|j: int|
                    0 <= j < it.index() ==> #[trigger] done.contains_key(*it.seq()[j].0),
                forall|p: (Address, Word)| #[trigger]
                    storages@.contains_key(p) ==> done.contains_key(p) || exists|j: int|
                        it.index() <= j < it.seq().len() && *it.seq()[j].0 == p,
        {
            let address = slot.0;
            let key = slot.1;
            let mut acc = self.take_account(address);
            if is_zero(value) {
                acc.storage.remove(&key);
            } else {
                acc.storage.insert(key, *value);
            }
            self.put_account(address, acc);
            proof {
                let old_done = done;
                done = done.insert((address, key), *value);
                assert forall|b: Address| b != address implies writes_address(done, b)
                    == writes_address(old_done, b) by {
                    if writes_address(done, b) {
                        let k = choose|k: Word| #[trigger] done.contains_key((b, k));
                        assert(old_done.contains_key((b, k)));
                    }
                    if writes_address(old_done, b) {
                        let k = choose|k: Word| #[trigger] old_done.contains_key((b, k));
                        assert(done.contains_key((b, k)));
                    }
                }
                assert forall|b: Address| b != address implies written_slots(
                    account_of(s0, b).storage,
                    done,
                    b,
                ) =~= written_slots(account_of(s0, b).storage, old_done, b) by {}
                let st0 = account_of(s0, address).storage;
                let ws_old = written_slots(st0, old_done, address);
                if !with_storage_writes(s0, old_done).contains_key(address) {
                    assert(ws_old =~= Map::empty());
                }
                assert(account_of(with_storage_writes(s0, old_done), address) == account_of(
                    s0,
                    address,
                ).with_storage(ws_old));
                if *value == zero_word() {
                    assert(written_slots(st0, done, address) =~= ws_old.remove(key));
                } else {
                    assert(written_slots(st0, done, address) =~= ws_old.insert(key, *value));
                }
                assert(done.contains_key((address, key)));
                assert(writes_address(done, address));
                let s_old = with_storage_writes(s0, old_done);
                let s_new = with_storage_writes(s0, done);
                assert forall|b: Address| b != address implies (s_new.contains_key(b)
                    == s_old.contains_key(b) && (s_new.contains_key(b) ==> s_new[b] == s_old[b])) by {
                    assert(writes_address(done, b) == writes_address(old_done, b));
                    assert(written_slots(account_of(s0, b).storage, done, b) =~= written_slots(
                        account_of(s0, b).storage,
                        old_done,
                        b,
                    ));
                }
                assert(self@ =~= with_storage_writes(s0, done));
            }
        }
        assert(done =~= storages@);
    }

    fn apply_deletes(&mut self, deletes: &BTreeSet<Address>)
        ensures
            final(self)@ == old(self)@.remove_keys(deletes@),
    {
        let ghost s0 = self@;
        let ghost mut done: Set<Address> = Set::empty();
        for address in it: deletes.iter()
            invariant
                self@ == s0.remove_keys(done),
                forall|a: Address| #[trigger] done.contains(a) ==> deletes@.contains(a),
                forall|j: int| 0 <= j < it.index() ==> #[trigger] done.contains(*it.seq()[j]),
                forall|a: Address| #[trigger]
                    deletes@.contains(a) ==> done.contains(a) || exists|j: int|
                        it.index() <= j < it.seq().len() && *it.seq()[j] == a,
        {
            let ghost before = self@;
            self.state.remove(address);
            proof {
                assert(self@ =~= before.remove(*address));
                done = done.insert(*address);
                assert(self@ =~= s0.remove_keys(done));
            }
        }
        assert(done =~= deletes@);
    }
}

} // verus!
