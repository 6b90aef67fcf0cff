use katana_storage::db::{DatabaseError, Db, DbEnv};
use katana_storage::felt::{ContractAddress, Felt};
use katana_storage::list::BlockList;
use katana_storage::models::{
    ContractClass, ContractClassChange, ContractInfoChangeList, ContractNonceChange,
    ContractStorageEntry, ContractStorageKey, GenericContractInfo, StorageEntry,
};
use katana_storage::state::{DbProvider, ProviderError, StateDb};
use katana_storage::trie::{TrieBinding, TrieDbFactory, TrieKind, TrieSnapshot, UncommittedBlock};
use katana_storage::version::{plan_open, VersionProbe};

fn felt(n: u64) -> Felt {
    Felt::from_u64(n)
}

fn address(n: u64) -> ContractAddress {
    ContractAddress::new(felt(n))
}

#[test]
fn historical_values_differ_across_a_change() {
    let mut provider = DbProvider::new(StateDb::new());
    let k = address(7);
    provider.record_nonce_change(2, k, felt(1)).unwrap();
    provider.record_nonce_change(6, k, felt(2)).unwrap();
    provider.record_storage_change(2, k, felt(9), felt(100)).unwrap();
    provider.record_storage_change(6, k, felt(9), felt(200)).unwrap();
    provider.record_class_change(2, k, felt(11)).unwrap();
    provider.record_class_change(6, k, felt(12)).unwrap();

    // b1 = 4 < change at 6 < b2 = 8
    let before = provider.historical(4);
    let after = provider.historical(8);
    assert_eq!(before.nonce(k), Ok(Some(felt(1))));
    assert_eq!(after.nonce(k), Ok(Some(felt(2))));
    assert_ne!(before.nonce(k), after.nonce(k));
    assert_eq!(before.storage(k, felt(9)), Ok(Some(felt(100))));
    assert_eq!(after.storage(k, felt(9)), Ok(Some(felt(200))));
    assert_eq!(before.class_hash_of_contract(k), Ok(Some(felt(11))));
    assert_eq!(after.class_hash_of_contract(k), Ok(Some(felt(12))));

    // the change is seen from its own block on, and not one block before
    assert_eq!(provider.historical(5).nonce(k), Ok(Some(felt(1))));
    assert_eq!(provider.historical(6).nonce(k), Ok(Some(felt(2))));
    assert_eq!(provider.historical(1).nonce(k), Ok(None));
    assert_eq!(provider.historical(0).storage(k, felt(9)), Ok(None));
    assert_eq!(provider.historical(u64::MAX).nonce(k), Ok(Some(felt(2))));
}

#[test]
fn value_written_at_a_block_is_read_at_that_block() {
    let mut provider = DbProvider::new(StateDb::new());
    for n in [0u64, 1, 5, 100, u64::MAX] {
        provider.record_nonce_change(n, address(1), felt(n ^ 0xabc)).unwrap();
        provider.record_class_change(n, address(1), felt(n ^ 0xdef)).unwrap();
        provider.record_storage_change(n, address(1), felt(3), Felt::from_u128(n as u128 + 1)).unwrap();
        let pinned = provider.historical(n);
        assert_eq!(pinned.block(), n);
        assert_eq!(pinned.nonce(address(1)), Ok(Some(felt(n ^ 0xabc))));
        assert_eq!(pinned.class_hash_of_contract(address(1)), Ok(Some(felt(n ^ 0xdef))));
        assert_eq!(pinned.storage(address(1), felt(3)), Ok(Some(Felt::from_u128(n as u128 + 1))));
        assert_eq!(provider.latest().nonce(address(1)), Ok(Some(felt(n ^ 0xabc))));
        assert_eq!(provider.latest().class_hash_of_contract(address(1)), Ok(Some(felt(n ^ 0xdef))));
        assert_eq!(provider.latest().storage(address(1), felt(3)), Ok(Some(Felt::from_u128(n as u128 + 1))));
    }
}

#[test]
fn two_changes_in_one_block_keep_the_last() {
    let mut provider = DbProvider::new(StateDb::new());
    provider.record_nonce_change(3, address(1), felt(10)).unwrap();
    provider.record_nonce_change(3, address(1), felt(11)).unwrap();
    provider.record_storage_change(3, address(1), felt(1), felt(5)).unwrap();
    provider.record_storage_change(3, address(1), felt(1), felt(4)).unwrap();
    assert_eq!(provider.historical(3).nonce(address(1)), Ok(Some(felt(11))));
    assert_eq!(provider.historical(3).storage(address(1), felt(1)), Ok(Some(felt(4))));
    assert_eq!(provider.0.nonce_change_history.entries(), 1);
    assert_eq!(provider.0.storage_change_history.entries(), 1);
    assert_eq!(provider.0.contract_storage.entries(), 1);
    let lists = provider.0.contract_info_change_set.get(&address(1)).unwrap();
    assert_eq!(lists.nonce_change_list.to_vec(), vec![3]);
}

#[test]
fn key_never_written_reads_as_none() {
    let mut provider = DbProvider::new(StateDb::new());
    let never = address(42);
    for block in [0u64, 1, 10, u64::MAX] {
        let pinned = provider.historical(block);
        assert_eq!(pinned.nonce(never), Ok(None));
        assert_eq!(pinned.class_hash_of_contract(never), Ok(None));
        assert_eq!(pinned.storage(never, felt(1)), Ok(None));
    }
    assert_eq!(provider.latest().nonce(never), Ok(None));
    assert_eq!(provider.latest().class_hash_of_contract(never), Ok(None));
    assert_eq!(provider.latest().storage(never, felt(1)), Ok(None));

    // others are written, before and after the key's place in the order
    provider.record_nonce_change(1, address(41), felt(1)).unwrap();
    provider.record_nonce_change(2, address(43), felt(2)).unwrap();
    provider.record_class_change(3, address(43), felt(2)).unwrap();
    provider.record_storage_change(4, address(41), felt(1), felt(7)).unwrap();
    provider.record_storage_change(4, address(43), felt(1), felt(7)).unwrap();
    provider.record_storage_change(5, address(42), felt(2), felt(8)).unwrap();
    let max_committed = 5;
    for block in [0u64, 1, 2, 3, 4, max_committed] {
        let pinned = provider.historical(block);
        assert_eq!(pinned.nonce(never), Ok(None));
        assert_eq!(pinned.class_hash_of_contract(never), Ok(None));
        assert_eq!(pinned.storage(never, felt(1)), Ok(None));
        assert_eq!(pinned.storage(never, felt(3)), Ok(None));
    }
    assert_eq!(provider.latest().nonce(never), Ok(None));
    assert_eq!(provider.latest().storage(never, felt(1)), Ok(None));
    assert_eq!(provider.latest().storage(never, felt(3)), Ok(None));
    assert_eq!(provider.latest().storage(never, felt(2)), Ok(Some(felt(8))));
}

#[test]
fn class_is_visible_from_its_declaration_block() {
    let mut provider = DbProvider::new(StateDb::new());
    let hash = felt(0xc1a55);
    provider.declare_class(10, hash, ContractClass::new(vec![1, 2, 3]), felt(0xca5)).unwrap();

    let early = provider.historical(9);
    assert_eq!(early.class(hash), Ok(None));
    assert_eq!(early.compiled_class_hash_of_class_hash(hash), Ok(None));

    let at = provider.historical(10);
    assert_eq!(at.class(hash), Ok(Some(&ContractClass::new(vec![1, 2, 3]))));
    assert_eq!(at.compiled_class_hash_of_class_hash(hash), Ok(Some(felt(0xca5))));
    assert!(provider.historical(11).class(hash).unwrap().is_some());
    assert_eq!(provider.historical(0).class(hash), Ok(None));

    assert_eq!(provider.latest().class(hash), Ok(Some(&ContractClass::new(vec![1, 2, 3]))));
    assert_eq!(provider.latest().compiled_class_hash_of_class_hash(hash), Ok(Some(felt(0xca5))));
    assert_eq!(provider.latest().class(felt(1)), Ok(None));

    // a class that is declared again keeps its first block
    provider.declare_class(20, hash, ContractClass::new(vec![1, 2, 3]), felt(0xca5)).unwrap();
    assert!(provider.historical(10).class(hash).unwrap().is_some());
    assert_eq!(provider.0.class_declaration_block.get(&hash), Some(&10));
}

#[test]
fn listed_block_without_a_row_is_reported() {
    let mut provider = DbProvider::new(StateDb::new());
    let a = address(5);
    provider.record_nonce_change(4, a, felt(1)).unwrap();
    provider.record_class_change(4, a, felt(2)).unwrap();
    provider.record_storage_change(4, a, felt(3), felt(4)).unwrap();

    // take the rows away and leave the lists
    assert!(provider.0.nonce_change_history.delete(&4, &ContractNonceChange { contract_address: a, nonce: felt(1) }));
    assert!(provider.0.class_change_history.delete(&4, &ContractClassChange { contract_address: a, class_hash: felt(2) }));
    let key = ContractStorageKey { contract_address: a, key: felt(3) };
    assert!(provider.0.storage_change_history.delete(&4, &ContractStorageEntry { key, value: felt(4) }));

    let pinned = provider.historical(9);
    assert_eq!(
        pinned.nonce(a),
        Err(ProviderError::MissingContractNonceChangeEntry { block: 4, contract_address: a })
    );
    assert_eq!(
        pinned.class_hash_of_contract(a),
        Err(ProviderError::MissingContractClassChangeEntry { block: 4, contract_address: a })
    );
    assert_eq!(
        pinned.storage(a, felt(3)),
        Err(ProviderError::MissingStorageChangeEntry {
            block: 4,
            contract_address: a,
            storage_key: felt(3)
        })
    );
    // before the listed block nothing is missed
    assert_eq!(provider.historical(3).nonce(a), Ok(None));
}

#[test]
fn row_of_another_entity_does_not_stand_in() {
    let mut db = StateDb::new();
    let a = address(5);
    let mut lists = ContractInfoChangeList::new();
    lists.nonce_change_list.insert(4);
    db.contract_info_change_set.put(a, lists);
    db.storage_change_set.put(
        ContractStorageKey { contract_address: a, key: felt(1) },
        BlockList::from_blocks(&[4]),
    );
    // the only rows under block 4 belong to later entities
    db.nonce_change_history.put(4, ContractNonceChange { contract_address: address(6), nonce: felt(9) });
    db.storage_change_history.put(
        4,
        ContractStorageEntry {
            key: ContractStorageKey { contract_address: a, key: felt(2) },
            value: felt(9),
        },
    );
    let provider = DbProvider::new(db);
    assert_eq!(
        provider.historical(4).nonce(a),
        Err(ProviderError::MissingContractNonceChangeEntry { block: 4, contract_address: a })
    );
    assert_eq!(
        provider.historical(4).storage(a, felt(1)),
        Err(ProviderError::MissingStorageChangeEntry {
            block: 4,
            contract_address: a,
            storage_key: felt(1)
        })
    );
    assert_eq!(provider.historical(4).nonce(address(6)), Ok(None));
}

#[test]
fn latest_writers_set_and_keep() {
    let mut provider = DbProvider::new(StateDb::new());
    let a = address(1);
    provider.set_nonce(a, felt(3)).unwrap();
    assert_eq!(
        provider.0.contract_info.get(&a),
        Some(&GenericContractInfo { nonce: felt(3), class_hash: Felt::zero() })
    );
    provider.set_class_hash_of_contract(a, felt(8)).unwrap();
    assert_eq!(
        provider.0.contract_info.get(&a),
        Some(&GenericContractInfo { nonce: felt(3), class_hash: felt(8) })
    );
    provider.set_nonce(a, felt(4)).unwrap();
    assert_eq!(provider.latest().nonce(a), Ok(Some(felt(4))));
    assert_eq!(provider.latest().class_hash_of_contract(a), Ok(Some(felt(8))));
    provider.set_class_hash_of_contract(address(2), felt(9)).unwrap();
    assert_eq!(provider.latest().nonce(address(2)), Ok(Some(Felt::zero())));

    provider.set_storage(a, felt(2), felt(20)).unwrap();
    provider.set_storage(a, felt(1), felt(10)).unwrap();
    provider.set_storage(a, felt(3), felt(30)).unwrap();
    provider.set_storage(a, felt(2), felt(21)).unwrap();
    assert_eq!(provider.latest().storage(a, felt(1)), Ok(Some(felt(10))));
    assert_eq!(provider.latest().storage(a, felt(2)), Ok(Some(felt(21))));
    assert_eq!(provider.latest().storage(a, felt(3)), Ok(Some(felt(30))));
    assert_eq!(provider.latest().storage(a, felt(0)), Ok(None));
    assert_eq!(provider.latest().storage(a, felt(4)), Ok(None));
    assert_eq!(provider.0.contract_storage.entries(), 3);
    assert!(provider.0.contract_storage.contains(&a, &StorageEntry { key: felt(2), value: felt(21) }));

    provider.set_class(felt(5), ContractClass::new(vec![9])).unwrap();
    provider.set_compiled_class_hash_of_class_hash(felt(5), felt(6)).unwrap();
    assert_eq!(provider.latest().class(felt(5)).unwrap().unwrap().definition, vec![9]);
    assert_eq!(provider.latest().compiled_class_hash_of_class_hash(felt(5)), Ok(Some(felt(6))));
    // the historical provider sees no change of what was only set
    assert_eq!(provider.historical(u64::MAX).nonce(a), Ok(None));
}

#[test]
fn older_compatible_database_reads_history() {
    let plan = plan_open(VersionProbe::Stamp(vec![0, 0, 0, 6])).unwrap();
    let mut provider = DbProvider::new(StateDb::new());
    provider.record_nonce_change(1, address(1), felt(5)).unwrap();
    let db = Db::open(plan, provider.0);
    assert!(db.require_migration());
    assert_eq!(db.version().get(), 6);
    assert_eq!(db.historical(1).nonce(address(1)), Ok(Some(felt(5))));
    assert_eq!(db.historical(0).nonce(address(1)), Ok(None));
    assert_eq!(db.latest().nonce(address(1)), Ok(Some(felt(5))));
    assert_eq!(db.tx().tables().nonce_change_history.entries(), 1);

    let fresh = Db::in_memory();
    assert!(!fresh.require_migration());
    assert_eq!(fresh.version().get(), 7);
    assert_eq!(fresh.latest().nonce(address(1)), Ok(None));
    assert_eq!(fresh.tx().historical(0).nonce(address(1)), Ok(None));
}

#[test]
fn reader_keeps_its_snapshot() {
    let mut db = Db::in_memory();
    let mut writer = db.tx_mut().unwrap();
    writer.provider.record_nonce_change(1, address(1), felt(10)).unwrap();
    writer.provider.declare_class(1, felt(7), ContractClass::new(vec![1]), felt(8)).unwrap();
    // what is not committed is not read
    assert_eq!(db.tx().latest().nonce(address(1)), Ok(None));
    db.commit(writer);

    let reader = db.tx();
    assert_eq!(reader.latest().nonce(address(1)), Ok(Some(felt(10))));

    let mut writer = db.tx_mut().unwrap();
    writer.provider.record_nonce_change(2, address(1), felt(20)).unwrap();
    writer.provider.record_storage_change(2, address(1), felt(1), felt(5)).unwrap();
    db.commit(writer);

    // the reader began before the second commit
    assert_eq!(reader.latest().nonce(address(1)), Ok(Some(felt(10))));
    assert_eq!(reader.historical(2).nonce(address(1)), Ok(Some(felt(10))));
    assert_eq!(reader.latest().storage(address(1), felt(1)), Ok(None));
    assert_eq!(reader.latest().class(felt(7)).unwrap().unwrap().definition, vec![1]);
    // a reader that begins now sees it
    let late = db.tx();
    assert_eq!(late.latest().nonce(address(1)), Ok(Some(felt(20))));
    assert_eq!(late.historical(1).nonce(address(1)), Ok(Some(felt(10))));
    assert_eq!(late.historical(2).nonce(address(1)), Ok(Some(felt(20))));
    assert_eq!(late.latest().storage(address(1), felt(1)), Ok(Some(felt(5))));
    assert_eq!(db.latest().nonce(address(1)), Ok(Some(felt(20))));
}

#[test]
fn one_writer_at_a_time() {
    let mut env = DbEnv::new();
    let first = env.tx_mut().unwrap();
    assert_eq!(env.tx_mut().unwrap_err(), DatabaseError::CreateRWTx);
    // readers begin while the writer is open
    assert_eq!(env.tx().latest().nonce(address(1)), Ok(None));
    env.commit(first);
    let mut second = env.tx_mut().unwrap();
    second.provider.set_nonce(address(1), felt(3)).unwrap();
    assert_eq!(env.tx_mut().unwrap_err(), DatabaseError::CreateRWTx);
    env.abort(second);
    // what an aborted transaction wrote is gone
    assert_eq!(env.tx().latest().nonce(address(1)), Ok(None));
    let mut third = env.tx_mut().unwrap();
    third.provider.set_nonce(address(1), felt(4)).unwrap();
    env.commit(third);
    assert_eq!(env.tx().latest().nonce(address(1)), Ok(Some(felt(4))));
    let seeded = DbEnv::with_state(StateDb::new());
    assert_eq!(seeded.tx().tables().contract_info.entries(), 0);
}

#[test]
fn historical_trie_needs_a_committed_block() {
    let provider = DbProvider::new(StateDb::new());
    let factory = TrieDbFactory::new(Some(10));
    assert_eq!(
        provider.historical(10).trie(&factory, TrieKind::Classes),
        Ok(TrieBinding { snapshot: TrieSnapshot::Historical(10), kind: TrieKind::Classes })
    );
    assert_eq!(
        provider.historical(0).trie(&factory, TrieKind::Storages(address(3))),
        Ok(TrieBinding {
            snapshot: TrieSnapshot::Historical(0),
            kind: TrieKind::Storages(address(3))
        })
    );
    assert_eq!(
        provider.historical(11).trie(&factory, TrieKind::Contracts),
        Err(UncommittedBlock { block: 11 })
    );
    let empty = TrieDbFactory::new(None);
    assert_eq!(empty.historical(0), Err(UncommittedBlock { block: 0 }));
    assert_eq!(empty.latest().snapshot, TrieSnapshot::Latest);
    assert_eq!(
        provider.latest().trie(TrieKind::Contracts),
        TrieBinding { snapshot: TrieSnapshot::Latest, kind: TrieKind::Contracts }
    );
    let global = factory.historical(4).unwrap();
    assert_eq!(global.classes_trie().kind, TrieKind::Classes);
    assert_eq!(global.contracts_trie().kind, TrieKind::Contracts);
    assert_eq!(global.storages_trie(address(1)).snapshot, TrieSnapshot::Historical(4));
}

#[test]
fn felt_bounds() {
    let modulus_hi: u128 = 0x0800_0000_0000_0011_0000_0000_0000_0000;
    assert!(Felt::new(modulus_hi, 0).is_some());
    assert!(Felt::new(modulus_hi, 1).is_none());
    assert!(Felt::new(modulus_hi - 1, u128::MAX).is_some());
    assert!(Felt::new(modulus_hi + 1, 0).is_none());
    assert!(Felt::new(u128::MAX, u128::MAX).is_none());
    assert_eq!(Felt::new(0, 5), Some(felt(5)));
    assert_eq!(Felt::new(3, 4).unwrap().to_halves(), (3, 4));
    assert_eq!(Felt::one(), felt(1));
    assert_eq!(Felt::two(), felt(2));
    assert_eq!(Felt::three(), Felt::from_u128(3));
}

#[test]
fn fresh_tables_are_empty_and_named() {
    let mut db = StateDb::new();
    assert_eq!(db.contract_info.name(), "ContractInfo");
    assert_eq!(db.classes.name(), "Classes");
    assert_eq!(db.compiled_class_hashes.name(), "CompiledClassHashes");
    assert_eq!(db.class_declaration_block.name(), "ClassDeclarationBlock");
    assert_eq!(db.contract_info_change_set.name(), "ContractInfoChangeSet");
    assert_eq!(db.storage_change_set.name(), "StorageChangeSet");
    assert_eq!(db.contract_info.entries(), 0);
    assert_eq!(db.contract_storage.entries(), 0);
    assert_eq!(db.classes.entries(), 0);
    assert_eq!(db.compiled_class_hashes.entries(), 0);
    assert_eq!(db.class_declaration_block.entries(), 0);
    assert_eq!(db.contract_info_change_set.entries(), 0);
    assert_eq!(db.nonce_change_history.entries(), 0);
    assert_eq!(db.class_change_history.entries(), 0);
    assert_eq!(db.storage_change_set.entries(), 0);
    assert_eq!(db.storage_change_history.entries(), 0);

    // a refused write names the table
    db.class_declaration_block.insert(felt(1), 5).unwrap();
    let refused = db.class_declaration_block.insert(felt(1), 6).unwrap_err();
    assert_eq!(refused.table, "ClassDeclarationBlock");

    let lists = ContractInfoChangeList::new();
    assert!(lists.class_change_list.is_empty());
    assert!(lists.nonce_change_list.is_empty());
}

#[test]
fn next_dup_val_ends_with_the_key() {
    let mut db = StateDb::new();
    let e = |k: u64, v: u64| StorageEntry { key: felt(k), value: felt(v) };
    db.contract_storage.put(address(1), e(1, 10));
    db.contract_storage.put(address(1), e(2, 20));
    db.contract_storage.put(address(2), e(0, 30));
    let mut cursor = db.contract_storage.cursor();
    assert_eq!(cursor.next_dup_val(), Some(e(1, 10)));
    assert_eq!(cursor.next_dup_val(), Some(e(2, 20)));
    // the next row has another key
    assert_eq!(cursor.next_dup_val(), None);
    assert_eq!(cursor.current(), Some((address(1), e(2, 20))));
    assert_eq!(cursor.next(), Some((address(2), e(0, 30))));
    // the table has no next row
    assert_eq!(cursor.next_dup_val(), None);
    let empty = StateDb::new();
    assert_eq!(empty.contract_storage.cursor().next_dup_val(), None);
}
