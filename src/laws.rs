//! What holds of every change set and every state.

use vstd::prelude::*;

use crate::account::default_account;
use crate::backend::{
    account_of, applied, applied_all, slot_of, with_balances, with_codes, with_nonces,
    with_storage_resets, with_storage_writes, written_slots, StateView,
};
use crate::changeset::{writes_address, ChangeSetView};
use crate::word::{zero_word, Address, Word};

verus! {

/// An address that none of the change sets names, and that had no record
/// before them, has none after them, and every read of it gives the default.
pub proof fn lemma_unreferenced_address_stays_absent(
    s: StateView,
    css: Seq<ChangeSetView>,
    a: Address,
)
    requires
        !s.contains_key(a),
        forall|i: int| 0 <= i < css.len() ==> !(#[trigger] css[i]).references(a),
    ensures
        !applied_all(s, css).contains_key(a),
        account_of(applied_all(s, css), a) == default_account(),
    decreases css.len(),
{
    if css.len() > 0 {
        let init = css.drop_last();
        assert forall|i: int| 0 <= i < init.len() implies !(#[trigger] init[i]).references(a) by {
            assert(init[i] == css[i]);
        }
        lemma_unreferenced_address_stays_absent(s, init, a);
        assert(!css[css.len() - 1].references(a));
    }
}

/// A storage write of zero leaves the slot reading zero, and no entry for it
/// in the account's storage map.
pub proof fn lemma_zero_write_leaves_no_entry(s: StateView, cs: ChangeSetView, a: Address, k: Word)
    requires
        cs.storages.contains_key((a, k)),
        cs.storages[(a, k)] == zero_word(),
    ensures
        applied(s, cs).contains_key(a) ==> !applied(s, cs)[a].storage.contains_key(k),
        slot_of(account_of(applied(s, cs), a).storage, k) == zero_word(),
{
}

/// After a change set, an account's storage holds a slot only where the
/// change set wrote a non-zero value to it, or where the slot was held
/// before and the change set neither wrote it nor reset the account's
/// storage: writes of zero never add an entry.
pub proof fn lemma_storage_grows_only_by_nonzero_writes(s: StateView, cs: ChangeSetView, a: Address)
    ensures
        forall|k: Word|
            applied(s, cs).contains_key(a) && #[trigger] applied(
                s,
                cs,
            )[a].storage.contains_key(k) ==> if cs.storages.contains_key((a, k)) {
                cs.storages[(a, k)] != zero_word()
            } else {
                !cs.storage_resets.contains(a) && account_of(s, a).storage.contains_key(k)
            },
{
}

/// A storage reset and a non-zero write to one of the same address's slots,
/// in one change set that does not delete the address: the slot holds the
/// written value, and every slot of the address that the change set does
/// not write reads zero.
pub proof fn lemma_reset_then_write(s: StateView, cs: ChangeSetView, a: Address, k: Word)
    requires
        cs.storage_resets.contains(a),
        cs.storages.contains_key((a, k)),
        cs.storages[(a, k)] != zero_word(),
        !cs.deletes.contains(a),
    ensures
        slot_of(account_of(applied(s, cs), a).storage, k) == cs.storages[(a, k)],
        forall|k2: Word|
            !cs.storages.contains_key((a, k2)) ==> slot_of(
                #[trigger] account_of(applied(s, cs), a).storage,
                k2,
            ) == zero_word(),
{
}

/// A change set that deletes an address leaves it without a record, whatever
/// else the change set writes to it, and every read of it gives the default.
pub proof fn lemma_delete_wins(s: StateView, cs: ChangeSetView, a: Address)
    requires
        cs.deletes.contains(a),
    ensures
        !applied(s, cs).contains_key(a),
        account_of(applied(s, cs), a) == default_account(),
{
}

/// Applying the same change set twice gives the state that applying it once
/// gives.
pub proof fn lemma_apply_idempotent(s: StateView, cs: ChangeSetView)
    ensures
        applied(applied(s, cs), cs) == applied(s, cs),
{
    let s1 = with_balances(s, cs.balances);
    let s2 = with_codes(s1, cs.codes);
    let s3 = with_nonces(s2, cs.nonces);
    let s4 = with_storage_resets(s3, cs.storage_resets);
    let s5 = with_storage_writes(s4, cs.storages);
    let once = applied(s, cs);
    let t1 = with_balances(once, cs.balances);
    let t2 = with_codes(t1, cs.codes);
    let t3 = with_nonces(t2, cs.nonces);
    let t4 = with_storage_resets(t3, cs.storage_resets);
    let t5 = with_storage_writes(t4, cs.storages);
    let twice = applied(once, cs);
    assert forall|a: Address| #[trigger] once.contains_key(a) implies twice.contains_key(a)
        && twice[a] == once[a] by {
        let acc = account_of(t4, a);
        let prev = account_of(s4, a);
        assert(acc.balance == prev.balance);
        assert(acc.code == prev.code);
        assert(acc.nonce == prev.nonce);
        assert(acc.transient_storage == prev.transient_storage);
        if cs.storage_resets.contains(a) {
            assert(acc.storage == prev.storage);
        } else {
            assert(acc.storage == written_slots(prev.storage, cs.storages, a));
            lemma_written_slots_idempotent(prev.storage, cs.storages, a);
        }
        assert(t5[a] == s5[a]);
    }
    assert(twice =~= once);
}

/// Writing the same slots twice gives what writing them once gives.
proof fn lemma_written_slots_idempotent(st: Map<Word, Word>, w: Map<(Address, Word), Word>, a: Address)
    ensures
        written_slots(written_slots(st, w, a), w, a) == written_slots(st, w, a),
{
    assert(written_slots(written_slots(st, w, a), w, a) =~= written_slots(st, w, a));
}

} // verus!
