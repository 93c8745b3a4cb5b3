//! A batch of state changes, as an engine produces it after execution.

use std::collections::{BTreeMap, BTreeSet};
use vstd::prelude::*;

use crate::word::{Address, Word};

verus! {

/// The net effect of executing one or more transactions.
#[derive(Clone, Debug)]
pub struct ChangeSet {
    /// New balance of each listed address.
    pub balances: BTreeMap<Address, Word>,
    /// New code of each listed address.
    pub codes: BTreeMap<Address, Vec<u8>>,
    /// New nonce of each listed address.
    pub nonces: BTreeMap<Address, Word>,
    /// Addresses whose persistent storage is cleared before the storage writes.
    pub storage_resets: BTreeSet<Address>,
    /// New value of each listed (address, key) storage slot.
    pub storages: BTreeMap<(Address, Word), Word>,
    /// Addresses removed entirely.
    pub deletes: BTreeSet<Address>,
}

/// The model of a change set: each part as a mathematical map or set.
pub struct ChangeSetView {
    pub balances: Map<Address, Word>,
    pub codes: Map<Address, Seq<u8>>,
    pub nonces: Map<Address, Word>,
    pub storage_resets: Set<Address>,
    pub storages: Map<(Address, Word), Word>,
    pub deletes: Set<Address>,
}

impl View for ChangeSet {
    type V = ChangeSetView;

    open spec fn view(&self) -> ChangeSetView {
        ChangeSetView {
            balances: self.balances@,
            codes: codes_view(self.codes@),
            nonces: self.nonces@,
            storage_resets: self.storage_resets@,
            storages: self.storages@,
            deletes: self.deletes@,
        }
    }
}

impl ChangeSet {
    /// A change set that changes nothing.
    pub fn new() -> (r: ChangeSet)
        ensures
            r@ == ChangeSetView::empty(),
    {
        let r = ChangeSet {
            balances: BTreeMap::new(),
            codes: BTreeMap::new(),
            nonces: BTreeMap::new(),
            storage_resets: BTreeSet::new(),
            storages: BTreeMap::new(),
            deletes: BTreeSet::new(),
        };
        assert(r@.codes =~= Map::empty());
        r
    }
}

impl ChangeSetView {
    pub open spec fn empty() -> ChangeSetView {
        ChangeSetView {
            balances: Map::empty(),
            codes: Map::empty(),
            nonces: Map::empty(),
            storage_resets: Set::empty(),
            storages: Map::empty(),
            deletes: Set::empty(),
        }
    }

    /// Whether any part of the change set names address `a`.
    pub open spec fn references(self, a: Address) -> bool {
        ||| self.balances.contains_key(a)
        ||| self.codes.contains_key(a)
        ||| self.nonces.contains_key(a)
        ||| self.storage_resets.contains(a)
        ||| writes_address(self.storages, a)
        ||| self.deletes.contains(a)
    }
}

/// The code of each listed address, as byte sequences.
pub open spec fn codes_view(m: Map<Address, Vec<u8>>) -> Map<Address, Seq<u8>> {
    m.map_values(|c: Vec<u8>| c@)
}

/// Whether some storage write targets a slot of address `a`.
pub open spec fn writes_address(w: Map<(Address, Word), Word>, a: Address) -> bool {
    exists|k: Word| #[trigger] w.contains_key((a, k))
}

} // verus!
