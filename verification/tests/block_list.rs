use katana_storage::list::{recent_change_from_block, BlockList};

fn sample() -> BlockList {
    BlockList::from_blocks(&[1, 2, 5, 6, 10])
}

#[test]
fn position_of_most_recent_block_in_block_list() {
    let list = sample();
    let cases: [(u64, Option<u64>); 7] = [
        (0, None),
        (1, Some(1)),
        (3, Some(2)),
        (5, Some(5)),
        (9, Some(6)),
        (10, Some(10)),
        (11, Some(10)),
    ];
    for (block_num, expected_block_num) in cases {
        let actual_block_num = recent_change_from_block(block_num, &list);
        assert_eq!(actual_block_num, expected_block_num);
    }
}

#[test]
fn rank_and_select_agree() {
    let list = sample();
    assert_eq!(list.rank(0), 0);
    assert_eq!(list.rank(1), 1);
    assert_eq!(list.select(0), Some(1));
    assert_eq!(list.rank(3), 2);
    assert_eq!(list.select(1), Some(2));
    assert_eq!(list.rank(5), 3);
    assert_eq!(list.select(2), Some(5));
    assert_eq!(list.rank(9), 4);
    assert_eq!(list.select(3), Some(6));
    assert_eq!(list.rank(10), 5);
    assert_eq!(list.select(4), Some(10));
    assert_eq!(list.rank(11), 5);
    assert_eq!(list.rank(u64::MAX), 5);
    assert_eq!(list.select(5), None);
    assert_eq!(list.select(u64::MAX), None);
}

#[test]
fn empty_list_has_no_change() {
    let list = BlockList::new();
    assert!(list.is_empty());
    assert_eq!(list.len(), 0);
    assert_eq!(list.rank(0), 0);
    assert_eq!(list.rank(u64::MAX), 0);
    assert_eq!(list.select(0), None);
    assert_eq!(list.last(), None);
    assert_eq!(recent_change_from_block(0, &list), None);
    assert_eq!(recent_change_from_block(u64::MAX, &list), None);
}

#[test]
fn insert_keeps_order_and_drops_repeats() {
    let mut list = BlockList::new();
    assert!(list.insert(5));
    assert!(list.insert(1));
    assert!(list.insert(10));
    assert!(!list.insert(5));
    assert!(list.insert(0));
    assert!(list.insert(u64::MAX));
    assert_eq!(list.to_vec(), vec![0, 1, 5, 10, u64::MAX]);
    assert_eq!(list.len(), 5);
    assert!(list.contains(10));
    assert!(!list.contains(7));
    assert_eq!(list.last(), Some(u64::MAX));
}

#[test]
fn from_blocks_sorts_and_dedups() {
    let list = BlockList::from_blocks(&[10, 2, 2, 6, 1, 5, 10]);
    assert_eq!(list.to_vec(), vec![1, 2, 5, 6, 10]);
}
