//! One account's state and its mathematical model.

use std::collections::BTreeMap;
use vstd::prelude::*;

use crate::word::{zero_word, Word};

verus! {

/// The state of one account.
#[derive(Debug)]
pub struct MockAccount {
    pub balance: Word,
    pub code: Vec<u8>,
    pub nonce: Word,
    pub storage: BTreeMap<Word, Word>,
    pub transient_storage: BTreeMap<Word, Word>,
}

/// The model of an account: its fields as mathematical values.
pub struct AccountView {
    pub balance: Word,
    pub code: Seq<u8>,
    pub nonce: Word,
    pub storage: Map<Word, Word>,
    pub transient_storage: Map<Word, Word>,
}

impl View for MockAccount {
    type V = AccountView;

    open spec fn view(&self) -> AccountView {
        AccountView {
            balance: self.balance,
            code: self.code@,
            nonce: self.nonce,
            storage: self.storage@,
            transient_storage: self.transient_storage@,
        }
    }
}

/// The account that every unknown address reads as: all fields zero or empty.
pub open spec fn default_account() -> AccountView {
    AccountView {
        balance: zero_word(),
        code: Seq::empty(),
        nonce: zero_word(),
        storage: Map::empty(),
        transient_storage: Map::empty(),
    }
}

/// Whether a storage map holds no zero value: a slot written with zero is
/// absent, never present with value zero.
pub open spec fn slots_wf(m: Map<Word, Word>) -> bool {
    forall|k: Word| #[trigger] m.contains_key(k) ==> m[k] != zero_word()
}

impl AccountView {
    /// The account's persistent storage holds no zero value.
    pub open spec fn wf(self) -> bool {
        slots_wf(self.storage)
    }

    /// This account with its balance replaced.
    pub open spec fn with_balance(self, v: Word) -> AccountView {
        AccountView { balance: v, ..self }
    }

    /// This account with its code replaced.
    pub open spec fn with_code(self, c: Seq<u8>) -> AccountView {
        AccountView { code: c, ..self }
    }

    /// This account with its nonce replaced.
    pub open spec fn with_nonce(self, v: Word) -> AccountView {
        AccountView { nonce: v, ..self }
    }

    /// This account with its persistent storage replaced.
    pub open spec fn with_storage(self, st: Map<Word, Word>) -> AccountView {
        AccountView { storage: st, ..self }
    }
}

impl Clone for MockAccount {
    fn clone(&self) -> (r: MockAccount)
        ensures
            r@ == self@,
    {
        MockAccount {
            balance: self.balance,
            code: self.code.clone(),
            nonce: self.nonce,
            storage: self.storage.clone(),
            transient_storage: self.transient_storage.clone(),
        }
    }
}

impl Default for MockAccount {
    fn default() -> (r: MockAccount)
        ensures
            r@ == default_account(),
    {
        MockAccount {
            balance: (0, 0),
            code: Vec::new(),
            nonce: (0, 0),
            storage: BTreeMap::new(),
            transient_storage: BTreeMap::new(),
        }
    }
}

} // verus!
