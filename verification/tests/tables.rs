use katana_storage::dup::DupTable;
use katana_storage::env::{DbEnvBuilder, EnvSettings, Mode, SyncMode};
use katana_storage::felt::{ContractAddress, Felt};
use katana_storage::key::TableKey;
use katana_storage::models::{ContractStorageKey, GenericContractInfo, StorageEntry};
use katana_storage::table::{Table, Walker, WriteError, WriteFailure};
use katana_storage::tables::{TableType, Tables, NUM_TABLES};

fn felt(n: u64) -> Felt {
    Felt::from_u64(n)
}

#[test]
fn db_manual_put_get() {
    let mut headers: Table<u64, Vec<u8>> = Table::new();
    let value = vec![1u8, 2, 3];
    let key = 1u64;

    headers.put(key, value.clone());

    let result = headers.get(&key);
    let total_entries = headers.entries();

    assert!(total_entries == 1);
    assert!(result.expect("Mismatching result.") == &value);
}

#[test]
fn db_delete() {
    let mut headers: Table<u64, Vec<u8>> = Table::new();
    let value = vec![7u8];
    let key = 1u64;

    headers.put(key, value.clone());
    assert!(headers.entries() == 1);

    assert_eq!(headers.delete(&key), Some(value));
    assert!(headers.entries() == 0);
    assert_eq!(headers.delete(&key), None);
    assert_eq!(headers.get(&key), None);
}

#[test]
fn db_manual_cursor_walk() {
    let mut headers: Table<u64, u8> = Table::new();
    headers.put(2, 20);
    headers.put(1, 10);
    headers.put(3, 30);

    let mut cursor = headers.cursor();
    let (_, result1) = cursor.next().expect("Mismatching result.");
    let (_, result2) = cursor.next().expect("Mismatching result.");
    let (_, result3) = cursor.next().expect("Mismatching result.");

    assert!(*result1 == 10);
    assert!(*result2 == 20);
    assert!(*result3 == 30);
    assert_eq!(cursor.next(), None);
    assert_eq!(cursor.current(), Some((3, &30)));
}

#[test]
fn db_cursor_upsert() {
    let mut info: Table<ContractAddress, GenericContractInfo> = Table::new();
    let key = ContractAddress::new(felt(0x1337));

    let account = GenericContractInfo::default();
    info.put(key, account);
    assert_eq!(info.cursor().set(key), Some((key, &account)));

    let account = GenericContractInfo { nonce: felt(1), ..Default::default() };
    info.put(key, account);
    assert_eq!(info.cursor().set(key), Some((key, &account)));

    let account = GenericContractInfo { nonce: felt(1), ..Default::default() };
    info.put(key, account);
    assert_eq!(info.cursor().set(key), Some((key, &account)));
    assert_eq!(info.entries(), 1);

    let mut storage: DupTable<ContractAddress, StorageEntry> = DupTable::new();
    let subkey = felt(0x9);

    let value = felt(1);
    let entry1 = StorageEntry { key: subkey, value };
    storage.put(key, entry1);
    assert_eq!(storage.cursor().seek_by_key_subkey(key, subkey), Some(entry1));

    let value = felt(2);
    let entry2 = StorageEntry { key: subkey, value };
    storage.put(key, entry2);
    let mut dup_cursor = storage.cursor();
    assert_eq!(dup_cursor.seek_by_key_subkey(key, subkey), Some(entry1));
    assert_eq!(dup_cursor.next_dup_val(), Some(entry2));
}

#[test]
fn db_cursor_walk() {
    let mut headers: Table<u64, u8> = Table::new();
    let value = 9u8;
    let key = 1u64;
    headers.put(key, value);

    let mut cursor = headers.cursor();
    let first = cursor.first();
    assert!(first.is_some(), "First should be our put");

    let mut walk = headers.walk(Some(key));
    let first = walk.next().unwrap();
    assert_eq!(*first.1, value, "First next should be put value");
}

#[test]
fn db_walker() {
    let mut hashes: Table<u64, Felt> = Table::new();
    for key in 0..3 {
        hashes.put(key, Felt::zero());
    }

    let mut walker = Walker::new(&hashes, None);

    assert_eq!(walker.next(), Some((0, &Felt::zero())));
    assert_eq!(walker.next(), Some((1, &Felt::zero())));
    assert_eq!(walker.next(), Some((2, &Felt::zero())));
    assert_eq!(walker.next(), None);
    assert_eq!(walker.next(), None);
}

#[test]
fn db_cursor_insert() {
    let mut hashes: Table<u64, Felt> = Table::named("BlockHashes");
    for key in 0..=4 {
        hashes.put(key, Felt::zero());
    }

    let key_to_insert = 5;

    // INSERT
    assert_eq!(hashes.insert(key_to_insert, Felt::zero()), Ok(()));
    assert_eq!(hashes.cursor().set(key_to_insert), Some((key_to_insert, &Felt::zero())));

    // INSERT (failure)
    assert_eq!(
        hashes.insert(key_to_insert, Felt::zero()),
        Err(WriteFailure {
            table: "BlockHashes",
            error: WriteError::KeyExist,
            key: key_to_insert.encode()
        })
    );
    assert_eq!(hashes.insert(key_to_insert, felt(1)).unwrap_err().error, WriteError::KeyExist);
    assert_eq!(hashes.cursor().set(key_to_insert), Some((key_to_insert, &Felt::zero())));

    // Confirm the result
    let mut walker = hashes.walk(None);
    let mut res = Vec::new();
    while let Some((key, _)) = walker.next() {
        res.push(key);
    }
    assert_eq!(res, vec![0, 1, 2, 3, 4, 5]);
}

#[test]
fn db_dup_sort() {
    let mut storage: DupTable<ContractAddress, StorageEntry> = DupTable::new();
    let key = ContractAddress::new(Felt::new(0xa2c122be, 0x93b0074270ebee7f6b7292c7deb45047).unwrap());

    // PUT (0,0)
    let value00 = StorageEntry { key: felt(0), value: felt(0) };
    storage.put(key, value00);

    // PUT (2,2)
    let value22 = StorageEntry { key: felt(2), value: felt(2) };
    storage.put(key, value22);

    // PUT (1,1)
    let value11 = StorageEntry { key: felt(1), value: felt(1) };
    storage.put(key, value11);

    // Iterate with cursor
    {
        let mut cursor = storage.cursor();

        // Notice that value11 and value22 have been ordered in the DB.
        assert!(Some(value00) == cursor.next_dup_val());
        assert!(Some(value11) == cursor.next_dup_val());
        assert!(Some(value22) == cursor.next_dup_val());
        assert!(None == cursor.next_dup_val());
    }

    // Seek value with exact subkey
    {
        let mut walker = storage.walk_dup(key, Some(felt(1)));

        assert_eq!((key, value11), walker.next().expect("element should exist."));
        assert_eq!(Some((key, value22)), walker.next());
        assert_eq!(None, walker.next());
    }
}

#[test]
fn cursor_moves_in_key_order() {
    let mut table: Table<u64, char> = Table::new();
    for (k, v) in [(10, 'b'), (30, 'd'), (5, 'a'), (20, 'c')] {
        table.put(k, v);
    }
    let mut cursor = table.cursor();
    assert_eq!(cursor.current(), None);
    assert_eq!(cursor.last(), Some((30, &'d')));
    assert_eq!(cursor.next(), None);
    assert_eq!(cursor.prev(), Some((20, &'c')));
    assert_eq!(cursor.first(), Some((5, &'a')));
    assert_eq!(cursor.prev(), None);
    assert_eq!(cursor.current(), Some((5, &'a')));
    assert_eq!(cursor.seek(6), Some((10, &'b')));
    assert_eq!(cursor.seek(10), Some((10, &'b')));
    assert_eq!(cursor.seek(31), None);
    assert_eq!(cursor.current(), Some((10, &'b')));
    assert_eq!(cursor.set(11), None);
    assert_eq!(cursor.set(20), Some((20, &'c')));
    assert_eq!(cursor.next(), Some((30, &'d')));
    let mut fresh = table.cursor();
    assert_eq!(fresh.prev(), Some((30, &'d')));
    let mut walker = table.walk(Some(11));
    assert_eq!(walker.next(), Some((20, &'c')));
    assert_eq!(walker.next(), Some((30, &'d')));
    assert_eq!(walker.next(), None);
    let mut past = table.walk(Some(31));
    assert_eq!(past.next(), None);
    assert_eq!(past.next(), None);
    let empty: Table<u64, char> = Table::new();
    assert_eq!(empty.cursor().first(), None);
    assert_eq!(empty.cursor().last(), None);
    assert_eq!(empty.cursor().next(), None);
    assert_eq!(empty.walk(None).next(), None);
    assert!(table.contains_key(&30));
    assert!(!table.contains_key(&31));
}

#[test]
fn dup_table_orders_by_key_subkey_and_value() {
    let mut table: DupTable<u64, StorageEntry> = DupTable::new();
    let e = |k: u64, v: u64| StorageEntry { key: felt(k), value: felt(v) };
    table.put(2, e(1, 1));
    table.put(1, e(5, 9));
    table.put(1, e(5, 3));
    table.put(1, e(2, 7));
    table.put(1, e(5, 3));
    assert_eq!(table.entries(), 4);
    let mut cursor = table.cursor();
    assert_eq!(cursor.next(), Some((1, e(2, 7))));
    assert_eq!(cursor.next(), Some((1, e(5, 3))));
    assert_eq!(cursor.next_dup(), Some((1, e(5, 9))));
    assert_eq!(cursor.next_dup(), None);
    assert_eq!(cursor.current(), Some((1, e(5, 9))));
    assert_eq!(cursor.next(), Some((2, e(1, 1))));
    assert_eq!(cursor.next(), None);
    assert_eq!(table.seek_by_key_subkey(&1, &felt(3)), Some(e(5, 3)));
    assert_eq!(table.seek_by_key_subkey(&1, &felt(6)), None);
    assert_eq!(table.seek_by_key_subkey(&3, &felt(0)), None);
    assert_eq!(table.seek_by_key_subkey(&2, &felt(0)), Some(e(1, 1)));
    assert_eq!(table.replace(1, e(5, 4)), Some(e(5, 3)));
    assert!(!table.contains(&1, &e(5, 3)));
    assert!(table.contains(&1, &e(5, 4)));
    assert!(table.contains(&1, &e(5, 9)));
    assert_eq!(table.replace(1, e(3, 0)), Some(e(5, 4)));
    assert_eq!(table.entries(), 5);
    assert!(!table.delete(&1, &e(9, 9)));
    assert!(table.delete(&1, &e(2, 7)));
    assert_eq!(table.cursor().next(), Some((1, e(3, 0))));
    let mut group = table.walk_dup(1, None);
    assert_eq!(group.next(), Some((1, e(3, 0))));
    assert_eq!(group.next(), Some((1, e(5, 4))));
    assert_eq!(group.next(), Some((1, e(5, 9))));
    assert_eq!(group.next(), None);
    assert_eq!(table.walk_dup(7, None).next(), None);
}

#[test]
fn key_order_is_the_order_of_big_endian_bytes() {
    let a = Felt::new(0, u128::MAX).unwrap();
    let b = Felt::new(1, 0).unwrap();
    assert!(a.is_before(&b));
    assert!(!b.is_before(&a));
    assert!(!a.is_before(&a));
    assert!(a.same_as(&a));
    assert!(1u64.is_before(&2));
    assert!(!2u64.is_before(&2));
    let k = |a: u64, s: u64| ContractStorageKey {
        contract_address: ContractAddress::new(felt(a)),
        key: felt(s),
    };
    assert!(k(1, 9).is_before(&k(2, 0)));
    assert!(k(1, 1).is_before(&k(1, 2)));
    assert!(!k(2, 0).is_before(&k(1, 9)));
    assert!(k(1, 1).same_as(&k(1, 1)));
    assert!(!k(1, 1).same_as(&k(1, 2)));
    assert!(ContractAddress::new(felt(1)).is_before(&ContractAddress::new(felt(2))));
}

#[test]
fn table_registry() {
    let all = Tables::all();
    assert_eq!(all.len(), NUM_TABLES);
    for (i, table) in all.iter().enumerate() {
        for other in &all[i + 1..] {
            assert_ne!(table, other);
            assert_ne!(table.name(), other.name());
        }
    }
    assert_eq!(Tables::ContractInfo.name(), "ContractInfo");
    assert_eq!(Tables::StorageChangeHistory.name(), "StorageChangeHistory");
    assert_eq!(Tables::ContractInfo.table_type(), TableType::Table);
    assert_eq!(Tables::StorageChangeSet.table_type(), TableType::Table);
    let dups: Vec<Tables> =
        all.iter().copied().filter(|t| t.table_type() == TableType::DupSort).collect();
    assert_eq!(
        dups,
        vec![
            Tables::ContractStorage,
            Tables::NonceChangeHistory,
            Tables::ClassChangeHistory,
            Tables::StorageChangeHistory
        ]
    );
}

#[test]
fn environment_settings() {
    let gigabyte: u64 = 1024 * 1024 * 1024;
    let settings = DbEnvBuilder::new().build();
    assert_eq!(
        settings,
        EnvSettings {
            max_dbs: 10,
            max_size: 1024 * gigabyte,
            growth_step: 4 * gigabyte as i64,
            shrinks: false,
            mode: Mode::ReadOnly,
            no_rdahead: true,
            coalesce: true,
            max_readers: 32_000,
        }
    );
    let written = DbEnvBuilder::new().write().max_readers(5).build();
    assert_eq!(written.mode, Mode::ReadWrite { sync_mode: SyncMode::Durable });
    assert_eq!(written.max_readers, 5);
    let ephemeral = DbEnvBuilder::in_memory().build();
    assert_eq!(ephemeral.mode, Mode::ReadWrite { sync_mode: SyncMode::UtterlyNoSync });
    assert_eq!(ephemeral.max_size, 10 * gigabyte);
    assert_eq!(ephemeral.growth_step, (gigabyte / 2) as i64);
    assert_eq!(DbEnvBuilder::default(), DbEnvBuilder::new());
    assert_eq!(DbEnvBuilder::new().sync(SyncMode::SafeNoSync).max_size(7).growth_step(-1).build().max_size, 7);
}

#[test]
fn key_encoding_is_big_endian() {
    assert_eq!(0x0102_0304_0506_0708u64.encode(), vec![1, 2, 3, 4, 5, 6, 7, 8]);
    assert_eq!(0u64.encode(), vec![0; 8]);
    assert_eq!(u64::MAX.encode(), vec![0xff; 8]);
    let f = Felt::new(0x0102, 0x0a0b).unwrap();
    let bytes = f.encode();
    assert_eq!(bytes.len(), 32);
    assert_eq!(&bytes[..14], &[0u8; 14]);
    assert_eq!(&bytes[14..16], &[1, 2]);
    assert_eq!(&bytes[16..30], &[0u8; 14]);
    assert_eq!(&bytes[30..], &[0x0a, 0x0b]);
    assert_eq!(ContractAddress::new(f).encode(), bytes);
    let key = ContractStorageKey { contract_address: ContractAddress::new(f), key: felt(7) };
    let encoded = key.encode();
    assert_eq!(encoded.len(), 64);
    assert_eq!(&encoded[..32], &bytes[..]);
    assert_eq!(encoded[63], 7);

    // the order of the encodings is the order of the keys
    let keys = [felt(0), felt(1), felt(255), felt(256), Felt::new(0, u128::MAX).unwrap(), Felt::new(1, 0).unwrap(), Felt::new(7, 3).unwrap()];
    for a in keys {
        for b in keys {
            assert_eq!(a.encode() < b.encode(), a.is_before(&b));
        }
    }
    for a in [0u64, 1, 255, 256, 65535, 65536, u64::MAX] {
        for b in [0u64, 1, 255, 256, 65535, 65536, u64::MAX] {
            assert_eq!(a.encode() < b.encode(), a < b);
        }
    }
}
