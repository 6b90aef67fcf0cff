use katana_storage::dup::DupTable;
use katana_storage::felt::{ContractAddress, Felt};
use katana_storage::history::{read_change, record_change, resolve_change_entry, MissingChange};
use katana_storage::list::BlockList;
use katana_storage::models::ContractNonceChange;

fn change(address: u64, nonce: u64) -> ContractNonceChange {
    ContractNonceChange {
        contract_address: ContractAddress::new(Felt::from_u64(address)),
        nonce: Felt::from_u64(nonce),
    }
}

fn who(address: u64) -> ContractAddress {
    ContractAddress::new(Felt::from_u64(address))
}

#[test]
fn change_log_of_one_entity() {
    let mut list = BlockList::new();
    let mut history: DupTable<u64, ContractNonceChange> = DupTable::new();
    assert_eq!(read_change(&list, &history, &who(1), 9), Ok(None));

    assert_eq!(record_change(&mut list, &mut history, 3, change(1, 30)), None);
    assert_eq!(record_change(&mut list, &mut history, 3, change(2, 31)), None);
    assert_eq!(record_change(&mut list, &mut history, 7, change(1, 70)), None);
    assert_eq!(list.to_vec(), vec![3, 7]);
    assert_eq!(history.entries(), 3);

    assert_eq!(read_change(&list, &history, &who(1), 2), Ok(None));
    assert_eq!(read_change(&list, &history, &who(1), 3), Ok(Some(change(1, 30))));
    assert_eq!(read_change(&list, &history, &who(1), 6), Ok(Some(change(1, 30))));
    assert_eq!(read_change(&list, &history, &who(1), 7), Ok(Some(change(1, 70))));
    assert_eq!(read_change(&list, &history, &who(1), u64::MAX), Ok(Some(change(1, 70))));

    // a second change in a block takes the place of the first
    assert_eq!(record_change(&mut list, &mut history, 7, change(1, 71)), Some(change(1, 70)));
    assert_eq!(list.to_vec(), vec![3, 7]);
    assert_eq!(history.entries(), 3);
    assert_eq!(read_change(&list, &history, &who(1), 7), Ok(Some(change(1, 71))));

    // the list of entity 1 names block 7, where entity 2 has no row
    assert_eq!(read_change(&list, &history, &who(2), 7), Err(MissingChange { block: 7 }));
    assert_eq!(read_change(&list, &history, &who(2), 3), Ok(Some(change(2, 31))));
    assert_eq!(read_change(&list, &history, &who(0), 5), Err(MissingChange { block: 3 }));
}

#[test]
fn row_found_by_the_seek_must_be_the_entity_s() {
    assert_eq!(resolve_change_entry(4, &who(1), Some(change(1, 5))), Ok(Some(change(1, 5))));
    assert_eq!(resolve_change_entry(4, &who(1), Some(change(2, 5))), Err(MissingChange { block: 4 }));
    assert_eq!(
        resolve_change_entry::<ContractNonceChange>(4, &who(1), None),
        Err(MissingChange { block: 4 })
    );
}
