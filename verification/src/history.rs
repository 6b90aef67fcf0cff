//! Change tracking for one kind of entity: the block list of each entity
//! and the history table that holds, under each listed block, the value
//! that the entity was given in that block.

use vstd::prelude::*;
use crate::dup::{
    exact_of, exact_row, first_dup_from, lemma_first_dup_unique, lemma_seek_finds_exact,
    replaced, unique_subkey, value_not_after, without_subkey, DupTable, DupValue,
};
use crate::key::TableKey;
use crate::list::{
    lemma_count_bounded, lemma_count_is_prefix, lemma_most_recent_change, most_recent_change,
    recent_change_from_block, strictly_increasing, BlockList,
};

verus! {

/// A block is in an entity's block list and the history table has no row
/// for the entity under that block.
#[derive(Debug, Clone, Copy, PartialEq, Eq, Structural)]
pub struct MissingChange {
    /// The listed block that has no row.
    pub block: u64,
}

/// What a read makes of the row that a seek under `block` from the
/// entity's subkey found: the row where it is the entity's, else the
/// report that the row is missing.
pub open spec fn resolve_change<E: DupValue>(block: u64, subkey: E::Subkey, found: Option<E>) -> Result<
    Option<E>,
    MissingChange,
> {
    match exact_of(found, subkey) {
        Some(e) => Ok(Some(e)),
        None => Err(MissingChange { block }),
    }
}

/// `r` is what reading the entity `subkey` as of `block` gives: nothing
/// where the entity has no change at or before the block, else what the
/// history table holds for the entity under its most recent change.
pub open spec fn change_as_of<E: DupValue>(
    list: Seq<u64>,
    history: Set<(u64, E)>,
    subkey: E::Subkey,
    block: u64,
    r: Result<Option<E>, MissingChange>,
) -> bool {
    match most_recent_change(list, block) {
        None => r == Ok::<Option<E>, MissingChange>(None),
        Some(num) => exists|found: Option<E>| #[trigger]
            first_dup_from(history, num, subkey.position(), found) && r == resolve_change(
                num,
                subkey,
                found,
            ),
    }
}

/// The history table has a row of the entity under `block`.
pub open spec fn has_row<E: DupValue>(history: Set<(u64, E)>, block: u64, subkey: E::Subkey) -> bool {
    exists|e: E| #[trigger] exact_row(history, block, subkey, e)
}

/// The entity's list and the history table fit together: the list is in
/// order, each listed block has a row of the entity, and no block has two.
pub open spec fn log_wf<E: DupValue>(list: Seq<u64>, history: Set<(u64, E)>, subkey: E::Subkey) -> bool {
    &&& strictly_increasing(list)
    &&& forall|b: u64| #[trigger] list.contains(b) ==> has_row(history, b, subkey)
    &&& forall|b: u64| #[trigger] unique_subkey(history, b, subkey)
}

/// The list after a change in `block`, where no later block is listed.
pub open spec fn list_after(list: Seq<u64>, block: u64) -> Seq<u64> {
    if list.len() > 0 && list.last() == block {
        list
    } else {
        list.push(block)
    }
}

/// The history table after the entity was given `value` in `block`.
pub open spec fn history_after<E: DupValue>(history: Set<(u64, E)>, block: u64, value: E) -> Set<
    (u64, E),
> {
    without_subkey(history, block, value.subkey()).insert((block, value))
}

/// A read gives one result only.
pub proof fn lemma_read_unique<E: DupValue>(
    list: Seq<u64>,
    history: Set<(u64, E)>,
    subkey: E::Subkey,
    block: u64,
    r1: Result<Option<E>, MissingChange>,
    r2: Result<Option<E>, MissingChange>,
)
    requires
        change_as_of(list, history, subkey, block, r1),
        change_as_of(list, history, subkey, block, r2),
    ensures
        r1 == r2,
{
    match most_recent_change(list, block) {
        None => {},
        Some(num) => {
            let f1 = choose|found: Option<E>| #[trigger]
                first_dup_from(history, num, subkey.position(), found) && r1 == resolve_change(
                    num,
                    subkey,
                    found,
                );
            let f2 = choose|found: Option<E>| #[trigger]
                first_dup_from(history, num, subkey.position(), found) && r2 == resolve_change(
                    num,
                    subkey,
                    found,
                );
            lemma_first_dup_unique(history, num, subkey.position(), f1, f2);
        },
    }
}

/// Where list and table fit together a read never fails: it gives nothing
/// exactly when every listed block is after `block`, and else the entity's
/// row under the latest listed block at or before `block`.
pub proof fn lemma_read_well_formed<E: DupValue>(
    list: Seq<u64>,
    history: Set<(u64, E)>,
    subkey: E::Subkey,
    block: u64,
    r: Result<Option<E>, MissingChange>,
)
    requires
        log_wf(list, history, subkey),
        change_as_of(list, history, subkey, block, r),
    ensures
        match most_recent_change(list, block) {
            None => r == Ok::<Option<E>, MissingChange>(None),
            Some(num) => r matches Ok(Some(e)) && exact_row(history, num, subkey, e),
        },
{
    lemma_most_recent_change(list, block);
    match most_recent_change(list, block) {
        None => {},
        Some(num) => {
            assert(list.contains(num));
            let e = choose|e: E| #[trigger] exact_row(history, num, subkey, e);
            assert(unique_subkey(history, num, subkey));
            lemma_seek_finds_exact(history, num, subkey, e);
            let found = choose|found: Option<E>| #[trigger]
                first_dup_from(history, num, subkey.position(), found) && r == resolve_change(
                    num,
                    subkey,
                    found,
                );
            lemma_first_dup_unique(history, num, subkey.position(), found, Some(e));
        },
    }
}

/// Where list and table fit together, each block has a result to read.
pub proof fn lemma_read_exists<E: DupValue>(
    list: Seq<u64>,
    history: Set<(u64, E)>,
    subkey: E::Subkey,
    block: u64,
) -> (r: Result<Option<E>, MissingChange>)
    requires
        log_wf(list, history, subkey),
    ensures
        change_as_of(list, history, subkey, block, r),
        r is Ok,
{
    lemma_most_recent_change(list, block);
    match most_recent_change(list, block) {
        None => Ok(None),
        Some(num) => {
            assert(list.contains(num));
            let e = choose|e: E| #[trigger] exact_row(history, num, subkey, e);
            assert(unique_subkey(history, num, subkey));
            lemma_seek_finds_exact(history, num, subkey, e);
            Ok(Some(e))
        },
    }
}

/// In an ordered list with nothing after `block`, the most recent change
/// as of an earlier block is not touched by a change in `block`, and from
/// `block` on the most recent change is `block`.
pub proof fn lemma_list_after(list: Seq<u64>, block: u64, at: u64)
    requires
        strictly_increasing(list),
        list.len() == 0 || list.last() <= block,
    ensures
        strictly_increasing(list_after(list, block)),
        at < block ==> most_recent_change(list_after(list, block), at) == most_recent_change(
            list,
            at,
        ),
        at >= block ==> most_recent_change(list_after(list, block), at) == Some(block),
        forall|x: u64| list_after(list, block).contains(x) <==> (list.contains(x) || x == block),
{
    let after = list_after(list, block);
    if list.len() > 0 && list.last() == block {
        assert(list[list.len() - 1] == block);
        if at >= block {
            assert forall|i: int| 0 <= i < list.len() implies list[i] <= at by {
                if i < list.len() - 1 {
                    assert(list[i] < list[list.len() - 1]);
                }
            }
            lemma_count_is_prefix(list, at, list.len() as int);
        }
    } else {
        assert forall|i: int, j: int| 0 <= i < j < after.len() implies after[i] < after[j] by {
            if j == list.len() {
                if i < list.len() - 1 {
                    assert(list[i] < list[list.len() - 1]);
                }
            } else {
                assert(list[i] < list[j]);
            }
        }
        assert(after.drop_last() =~= list);
        assert(after[list.len() as int] == block);
        assert forall|x: u64| after.contains(x) <==> (list.contains(x) || x == block) by {
            if after.contains(x) {
                let j = choose|j: int| 0 <= j < after.len() && after[j] == x;
                if j < list.len() {
                    assert(list[j] == x);
                }
            }
            if list.contains(x) {
                let j = choose|j: int| 0 <= j < list.len() && list[j] == x;
                assert(after[j] == x);
            }
        }
        if at >= block {
            assert forall|i: int| 0 <= i < after.len() implies after[i] <= at by {
                if i < list.len() - 1 {
                    assert(list[i] < list[list.len() - 1]);
                }
            }
            lemma_count_is_prefix(after, at, after.len() as int);
        } else {
            lemma_count_bounded(list, at);
        }
    }
}

/// Round trip: after an entity was given `value` in `block`, list and
/// table still fit together and the entity reads as `value` at `block` and
/// at every later block.
pub proof fn lemma_change_is_read_back<E: DupValue>(
    list: Seq<u64>,
    history: Set<(u64, E)>,
    block: u64,
    value: E,
    at: u64,
)
    requires
        log_wf(list, history, value.subkey()),
        list.len() == 0 || list.last() <= block,
        at >= block,
    ensures
        log_wf(list_after(list, block), history_after(history, block, value), value.subkey()),
        change_as_of(
            list_after(list, block),
            history_after(history, block, value),
            value.subkey(),
            at,
            Ok(Some(value)),
        ),
{
    let subkey = value.subkey();
    let l2 = list_after(list, block);
    let h2 = history_after(history, block, value);
    lemma_list_after(list, block, at);
    assert(exact_row(h2, block, subkey, value));
    assert forall|b: u64| #[trigger] l2.contains(b) implies has_row(h2, b, subkey) by {
        if b == block {
            assert(exact_row(h2, b, subkey, value));
        } else {
            assert(list.contains(b));
            let e = choose|e: E| #[trigger] exact_row(history, b, subkey, e);
            assert(h2.contains((b, e)));
            assert(exact_row(h2, b, subkey, e));
        }
    }
    assert forall|b: u64| #[trigger] unique_subkey(h2, b, subkey) by {
        assert(unique_subkey(history, b, subkey));
        assert forall|e1: E, e2: E|
            #![trigger h2.contains((b, e1)), h2.contains((b, e2))]
            exact_row(h2, b, subkey, e1) && exact_row(h2, b, subkey, e2) implies e1 == e2 by {
            if b != block {
                assert(history.contains((b, e1)));
                assert(history.contains((b, e2)));
                assert(exact_row(history, b, subkey, e1) && exact_row(history, b, subkey, e2));
            }
        }
    }
    lemma_seek_finds_exact(h2, block, subkey, value);
    assert(resolve_change(block, subkey, Some(value)) == Ok::<Option<E>, MissingChange>(
        Some(value),
    ));
}

/// Reads as of a block before a change are not touched by the change.
pub proof fn lemma_change_keeps_past<E: DupValue>(
    list: Seq<u64>,
    history: Set<(u64, E)>,
    block: u64,
    value: E,
    at: u64,
    r: Result<Option<E>, MissingChange>,
)
    requires
        strictly_increasing(list),
        list.len() == 0 || list.last() <= block,
        at < block,
    ensures
        change_as_of(
            list_after(list, block),
            history_after(history, block, value),
            value.subkey(),
            at,
            r,
        ) <==> change_as_of(list, history, value.subkey(), at, r),
{
    let subkey = value.subkey();
    let l2 = list_after(list, block);
    let h2 = history_after(history, block, value);
    lemma_list_after(list, block, at);
    lemma_most_recent_change(list, at);
    match most_recent_change(list, at) {
        None => {},
        Some(num) => {
            assert(num != block);
            assert forall|found: Option<E>|
                first_dup_from(h2, num, subkey.position(), found) <==> first_dup_from(
                    history,
                    num,
                    subkey.position(),
                    found,
                ) by {
                lemma_same_values_same_seek(history, h2, num, subkey.position(), found);
            }
        },
    }
}

/// Two tables with the same values under a key give a seek under the key
/// the same thing to find.
pub proof fn lemma_same_values_same_seek<K: TableKey, E: DupValue>(
    a: Set<(K, E)>,
    b: Set<(K, E)>,
    key: K,
    bound: int,
    found: Option<E>,
)
    requires
        forall|e: E| a.contains((key, e)) <==> b.contains((key, e)),
    ensures
        first_dup_from(a, key, bound, found) <==> first_dup_from(b, key, bound, found),
{
    if first_dup_from(a, key, bound, found) {
        match found {
            Some(f) => {
                assert(a.contains((key, f)));
                assert forall|e2: E| #[trigger]
                    b.contains((key, e2)) && e2.subkey().position() >= bound implies value_not_after(
                    f,
                    e2,
                ) by {
                    assert(a.contains((key, e2)));
                }
            },
            None => {
                assert forall|e2: E| #[trigger] b.contains((key, e2)) implies e2.subkey().position()
                    < bound by {
                    assert(a.contains((key, e2)));
                }
            },
        }
    }
    if first_dup_from(b, key, bound, found) {
        match found {
            Some(f) => {
                assert(b.contains((key, f)));
                assert forall|e2: E| #[trigger]
                    a.contains((key, e2)) && e2.subkey().position() >= bound implies value_not_after(
                    f,
                    e2,
                ) by {
                    assert(b.contains((key, e2)));
                }
            },
            None => {
                assert forall|e2: E| #[trigger] a.contains((key, e2)) implies e2.subkey().position()
                    < bound by {
                    assert(b.contains((key, e2)));
                }
            },
        }
    }
}

/// A change to one entity leaves every other entity as it was: its list
/// and the table still fit together, and each read of it gives what it
/// gave.
pub proof fn lemma_change_keeps_others<E: DupValue>(
    list: Seq<u64>,
    history: Set<(u64, E)>,
    other: E::Subkey,
    block: u64,
    value: E,
    at: u64,
    r: Result<Option<E>, MissingChange>,
)
    requires
        log_wf(list, history, other),
        other != value.subkey(),
    ensures
        log_wf(list, history_after(history, block, value), other),
        change_as_of(list, history_after(history, block, value), other, at, r) <==> change_as_of(
            list,
            history,
            other,
            at,
            r,
        ),
{
    let h2 = history_after(history, block, value);
    assert forall|b: u64| #[trigger] list.contains(b) implies has_row(h2, b, other) by {
        let e = choose|e: E| #[trigger] exact_row(history, b, other, e);
        assert(h2.contains((b, e)));
        assert(exact_row(h2, b, other, e));
    }
    assert forall|b: u64| #[trigger] unique_subkey(h2, b, other) by {
        assert(unique_subkey(history, b, other));
        assert forall|e1: E, e2: E|
            #![trigger h2.contains((b, e1)), h2.contains((b, e2))]
            exact_row(h2, b, other, e1) && exact_row(h2, b, other, e2) implies e1 == e2 by {
            assert(history.contains((b, e1)));
            assert(history.contains((b, e2)));
            assert(exact_row(history, b, other, e1) && exact_row(history, b, other, e2));
        }
    }
    if change_as_of(list, h2, other, at, r) {
        let r0 = lemma_read_exists(list, history, other, at);
        lemma_read_well_formed(list, history, other, at, r0);
        lemma_read_well_formed(list, h2, other, at, r);
        match most_recent_change(list, at) {
            None => {},
            Some(num) => {
                assert(unique_subkey(history, num, other));
                assert(r0->Ok_0->0 == r->Ok_0->0);
            },
        }
    }
    if change_as_of(list, history, other, at, r) {
        let r2 = lemma_read_exists(list, h2, other, at);
        lemma_read_well_formed(list, h2, other, at, r2);
        lemma_read_well_formed(list, history, other, at, r);
        match most_recent_change(list, at) {
            None => {},
            Some(num) => {
                assert(unique_subkey(history, num, other));
                assert(r2->Ok_0->0 == r->Ok_0->0);
            },
        }
    }
}

/// Between two blocks with one change of the entity after the first and
/// at or before the second, the entity reads differently wherever the
/// change altered its value: as of the second block it reads as the row
/// of the change, and as of the first as what it was before.
pub proof fn lemma_reads_differ_across_change<E: DupValue>(
    list: Seq<u64>,
    history: Set<(u64, E)>,
    subkey: E::Subkey,
    first: u64,
    second: u64,
    change: u64,
    row: E,
    r_first: Result<Option<E>, MissingChange>,
    r_second: Result<Option<E>, MissingChange>,
)
    requires
        log_wf(list, history, subkey),
        first < change <= second,
        list.contains(change),
        forall|x: u64| #[trigger] list.contains(x) && first < x <= second ==> x == change,
        exact_row(history, change, subkey, row),
        change_as_of(list, history, subkey, first, r_first),
        change_as_of(list, history, subkey, second, r_second),
        r_first != Ok::<Option<E>, MissingChange>(Some(row)),
    ensures
        r_second == Ok::<Option<E>, MissingChange>(Some(row)),
        r_first != r_second,
{
    lemma_most_recent_change(list, second);
    let i = choose|i: int| 0 <= i < list.len() && list[i] == change;
    assert(list[i] <= second);
    match most_recent_change(list, second) {
        None => {
            assert(list[i] > second);
        },
        Some(b) => {
            assert(list[i] <= b);
            assert(list.contains(b));
            assert(b == change);
            lemma_read_well_formed(list, history, subkey, second, r_second);
            assert(unique_subkey(history, change, subkey));
        },
    }
}

/// Decides what a read makes of the row that the seek found.
pub fn resolve_change_entry<E: DupValue>(block: u64, subkey: &E::Subkey, found: Option<E>) -> (r:
    Result<Option<E>, MissingChange>)
    ensures
        r == resolve_change(block, *subkey, found),
{
    match found {
        Some(entry) => {
            if entry.get_subkey().same_as(subkey) {
                Ok(Some(entry))
            } else {
                Err(MissingChange { block })
            }
        },
        None => Err(MissingChange { block }),
    }
}

/// Reads the entity `subkey` as of `block`: finds the most recent change
/// at or before the block by rank and select over the entity's list, then
/// fetches the entity's row under that change.
pub fn read_change<E: DupValue>(
    list: &BlockList,
    history: &DupTable<u64, E>,
    subkey: &E::Subkey,
    block: u64,
) -> (r: Result<Option<E>, MissingChange>)
    ensures
        change_as_of(list@, history@, *subkey, block, r),
{
    match recent_change_from_block(block, list) {
        None => Ok(None),
        Some(num) => {
            let found = history.seek_by_key_subkey(&num, subkey);
            resolve_change_entry(num, subkey, found)
        },
    }
}

/// Records that the entity was given `value` in `block`: writes the row
/// under the block, in place of the row that the entity had there, and
/// adds the block to the entity's list.
pub fn record_change<E: DupValue>(
    list: &mut BlockList,
    history: &mut DupTable<u64, E>,
    block: u64,
    value: E,
) -> (found: Option<E>)
    ensures
        strictly_increasing(final(list)@),
        forall|x: u64| final(list)@.contains(x) <==> (old(list)@.contains(x) || x == block),
        (old(list)@.len() == 0 || old(list)@.last() <= block) ==> final(list)@ == list_after(
            old(list)@,
            block,
        ),
        first_dup_from(old(history)@, block, value.subkey().position(), found),
        final(history)@ == replaced(old(history)@, block, found, value),
        unique_subkey(old(history)@, block, value.subkey()) ==> final(history)@ == history_after(
            old(history)@,
            block,
            value,
        ),
{
    let found = history.replace(block, value);
    let ghost before = list@;
    list.insert(block);
    proof {
        if before.len() > 0 && before.last() == block {
            assert(before[before.len() - 1] == block);
            assert(before.contains(block));
        }
    }
    found
}

} // verus!
