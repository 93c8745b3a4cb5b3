
use mock_backend::account::MockAccount;
use mock_backend::backend::MockBackend;
use mock_backend::changeset::ChangeSet;
use mock_backend::word::{is_zero, Address, Word};

const A: Address = (0x1111_2222, 0x3333_4444_5555_6666_7777_8888_9999_aaaa);
const B: Address = (7, 9);
const ZERO: Word = (0, 0);

fn word(n: u128) -> Word {
    (0, n)
}

#[test]
fn balance_write_creates_account() {
    let mut backend = MockBackend::new();
    let mut cs = ChangeSet::new();
    cs.balances.insert(A, word(100));
    backend.apply_overlayed(&cs);
    assert_eq!(backend.balance(A), word(100));
    assert!(backend.account_exists(A));
    assert_eq!(backend.code(A), Vec::<u8>::new());
    assert_eq!(backend.nonce(A), ZERO);
}

#[test]
fn storage_reset_clears_earlier_write() {
    let mut backend = MockBackend::new();
    let mut cs = ChangeSet::new();
    cs.storages.insert((A, word(1)), word(42));
    backend.apply_overlayed(&cs);
    assert_eq!(backend.storage(A, word(1)), word(42));
    let mut reset = ChangeSet::new();
    reset.storage_resets.insert(A);
    backend.apply_overlayed(&reset);
    assert_eq!(backend.storage(A, word(1)), ZERO);
    assert!(backend.account_exists(A));
}

#[test]
fn delete_after_balance_removes_account() {
    let mut backend = MockBackend::new();
    let mut cs = ChangeSet::new();
    cs.balances.insert(A, word(5));
    backend.apply_overlayed(&cs);
    let mut del = ChangeSet::new();
    del.deletes.insert(A);
    backend.apply_overlayed(&del);
    assert!(!backend.account_exists(A));
    assert_eq!(backend.balance(A), ZERO);
}

#[test]
fn unreferenced_address_reads_defaults() {
    let mut backend = MockBackend::new();
    let mut cs = ChangeSet::new();
    cs.balances.insert(A, word(3));
    cs.codes.insert(A, vec![0x60, 0x00]);
    cs.storages.insert((A, word(2)), word(4));
    backend.apply_overlayed(&cs);
    backend.apply_overlayed(&cs);
    assert!(!backend.account_exists(B));
    assert_eq!(backend.balance(B), ZERO);
    assert_eq!(backend.nonce(B), ZERO);
    assert!(backend.code(B).is_empty());
    assert_eq!(backend.storage(B, word(2)), ZERO);
    assert_eq!(backend.transient_storage(B, word(2)), ZERO);
}

#[test]
fn zero_write_removes_entry() {
    let mut backend = MockBackend::new();
    let mut cs = ChangeSet::new();
    cs.storages.insert((A, word(1)), word(9));
    cs.storages.insert((A, word(2)), word(8));
    backend.apply_overlayed(&cs);
    assert_eq!(backend.state[&A].storage.len(), 2);
    let mut zero = ChangeSet::new();
    zero.storages.insert((A, word(1)), ZERO);
    zero.storages.insert((A, word(3)), ZERO);
    backend.apply_overlayed(&zero);
    assert_eq!(backend.storage(A, word(1)), ZERO);
    assert_eq!(backend.storage(A, word(2)), word(8));
    assert_eq!(backend.state[&A].storage.len(), 1);
    assert!(!backend.state[&A].storage.contains_key(&word(1)));
    assert!(!backend.state[&A].storage.contains_key(&word(3)));
}

#[test]
fn zero_write_to_new_address_creates_empty_account() {
    let mut backend = MockBackend::new();
    let mut cs = ChangeSet::new();
    cs.storages.insert((B, word(1)), ZERO);
    backend.apply_overlayed(&cs);
    assert!(backend.account_exists(B));
    assert!(backend.state[&B].storage.is_empty());
}

#[test]
fn applying_twice_equals_applying_once() {
    let mut base = MockBackend::new();
    let mut setup = ChangeSet::new();
    setup.storages.insert((A, word(7)), word(70));
    setup.nonces.insert(B, word(2));
    base.apply_overlayed(&setup);

    let mut cs = ChangeSet::new();
    cs.balances.insert(A, word(11));
    cs.codes.insert(B, vec![1, 2, 3]);
    cs.nonces.insert(A, word(4));
    cs.storage_resets.insert(A);
    cs.storages.insert((A, word(1)), word(10));
    cs.storages.insert((B, word(5)), word(50));
    cs.storages.insert((B, word(6)), ZERO);

    let mut once = base.clone();
    once.apply_overlayed(&cs);
    let mut twice = once.clone();
    twice.apply_overlayed(&cs);
    assert_eq!(once.state.len(), twice.state.len());
    for (address, account) in once.state.iter() {
        let other = &twice.state[address];
        assert_eq!(other.balance, account.balance);
        assert_eq!(other.code, account.code);
        assert_eq!(other.nonce, account.nonce);
        assert_eq!(other.storage, account.storage);
        assert_eq!(other.transient_storage, account.transient_storage);
    }
    assert_eq!(twice.balance(A), word(11));
    assert_eq!(twice.storage(A, word(7)), ZERO);
    assert_eq!(twice.storage(A, word(1)), word(10));
    assert_eq!(twice.code(B), vec![1, 2, 3]);
    assert_eq!(twice.nonce(B), word(2));
}

#[test]
fn reset_then_write_in_one_change_set() {
    let mut backend = MockBackend::new();
    let mut setup = ChangeSet::new();
    setup.storages.insert((A, word(1)), word(100));
    setup.storages.insert((A, word(2)), word(200));
    backend.apply_overlayed(&setup);
    let mut cs = ChangeSet::new();
    cs.storage_resets.insert(A);
    cs.storages.insert((A, word(2)), word(222));
    backend.apply_overlayed(&cs);
    assert_eq!(backend.storage(A, word(2)), word(222));
    assert_eq!(backend.storage(A, word(1)), ZERO);
    assert_eq!(backend.state[&A].storage.len(), 1);
}

#[test]
fn delete_wins_over_writes_in_same_change_set() {
    let mut backend = MockBackend::new();
    let mut cs = ChangeSet::new();
    cs.balances.insert(A, word(1));
    cs.codes.insert(A, vec![0xfe]);
    cs.nonces.insert(A, word(1));
    cs.storages.insert((A, word(1)), word(1));
    cs.deletes.insert(A);
    backend.apply_overlayed(&cs);
    assert!(!backend.account_exists(A));
    assert_eq!(backend.balance(A), ZERO);
    assert!(backend.code(A).is_empty());
    assert_eq!(backend.nonce(A), ZERO);
    assert_eq!(backend.storage(A, word(1)), ZERO);
    assert!(backend.state.is_empty());
}

#[test]
fn updates_keep_other_fields() {
    let mut backend = MockBackend::new();
    let mut account = MockAccount::default();
    account.balance = word(9);
    account.transient_storage.insert(word(1), word(5));
    account.storage.insert(word(3), word(30));
    backend.state.insert(A, account);
    let mut cs = ChangeSet::new();
    cs.nonces.insert(A, (1, 0));
    backend.apply_overlayed(&cs);
    assert_eq!(backend.balance(A), word(9));
    assert_eq!(backend.nonce(A), (1, 0));
    assert_eq!(backend.transient_storage(A, word(1)), word(5));
    assert_eq!(backend.storage(A, word(3)), word(30));
}

#[test]
fn code_write_replaces_code() {
    let mut backend = MockBackend::new();
    let mut cs = ChangeSet::new();
    cs.codes.insert(A, vec![0x60, 0x01]);
    backend.apply_overlayed(&cs);
    let mut cs2 = ChangeSet::new();
    cs2.codes.insert(A, vec![0x00]);
    backend.apply_overlayed(&cs2);
    assert_eq!(backend.code(A), vec![0x00]);
    assert_eq!(backend.balance(A), ZERO);
}

#[test]
fn state_iterates_in_address_order() {
    let mut backend = MockBackend::new();
    let mut cs = ChangeSet::new();
    cs.balances.insert((2, 0), word(1));
    cs.balances.insert((1, u128::MAX), word(1));
    cs.balances.insert((1, 5), word(1));
    backend.apply_overlayed(&cs);
    let keys: Vec<Address> = backend.state.keys().cloned().collect();
    assert_eq!(keys, vec![(1, 5), (1, u128::MAX), (2, 0)]);
}

#[test]
fn environment_reads_are_neutral() {
    let backend = MockBackend::new();
    assert_eq!(backend.block_hash(word(12)), ZERO);
    assert_eq!(backend.block_number(), ZERO);
    assert_eq!(backend.block_coinbase(), (0, 0));
    assert_eq!(backend.block_timestamp(), ZERO);
    assert_eq!(backend.block_difficulty(), ZERO);
    assert_eq!(backend.block_randomness(), None);
    assert_eq!(backend.block_gas_limit(), ZERO);
    assert_eq!(backend.block_base_fee_per_gas(), ZERO);
    assert_eq!(backend.chain_id(), ZERO);
}

#[test]
fn zero_test_on_words() {
    assert!(is_zero(&ZERO));
    assert!(!is_zero(&(1, 0)));
    assert!(!is_zero(&(0, 1)));
}

#[test]
fn empty_change_set_changes_nothing() {
    let mut backend = MockBackend::new();
    backend.apply_overlayed(&ChangeSet::new());
    assert!(backend.state.is_empty());
}
