//! Single-value tables: at most one value per key, rows kept in key order.

use vstd::prelude::*;
use crate::key::TableKey;

verus! {

/// A value that a table holds. It has a content, which is what reads of
/// the value give, and can be copied with its content.
pub trait Stored: Sized {
    type Content;

    /// What the value holds.
    spec fn content(&self) -> Self::Content;

    /// A second value with the same content.
    fn replica(&self) -> (r: Self)
        ensures
            r.content() == self.content(),
    ;
}

impl Stored for u64 {
    type Content = u64;

    open spec fn content(&self) -> u64 {
        *self
    }

    fn replica(&self) -> (r: Self) {
        *self
    }
}

/// One row of a single-value table.
#[derive(Debug)]
pub struct Row<K, V> {
    pub key: K,
    pub value: V,
}

/// The rows stand in the strict order of their keys.
pub open spec fn rows_sorted<K: TableKey, V>(rows: Seq<Row<K, V>>) -> bool {
    forall|i: int, j: int|
        0 <= i < j < rows.len() ==> (#[trigger] rows[i]).key.position() < (
        #[trigger] rows[j]).key.position()
}

/// The map that the rows stand for.
pub open spec fn rows_map<K: TableKey, V>(rows: Seq<Row<K, V>>) -> Map<K, V> {
    Map::new(
        |k: K| exists|i: int| 0 <= i < rows.len() && (#[trigger] rows[i]).key == k,
        |k: K| rows[choose|i: int| 0 <= i < rows.len() && (#[trigger] rows[i]).key == k].value,
    )
}

/// Each row of a sorted table is what the map holds under the row's key.
pub proof fn lemma_row_in_map<K: TableKey, V>(rows: Seq<Row<K, V>>, i: int)
    requires
        rows_sorted(rows),
        0 <= i < rows.len(),
    ensures
        rows_map(rows).contains_key(rows[i].key),
        rows_map(rows)[rows[i].key] == rows[i].value,
{
    let k = rows[i].key;
    let j = choose|j: int| 0 <= j < rows.len() && (#[trigger] rows[j]).key == k;
    assert(rows[i].key == k);
    if j < i {
        assert(rows[j].key.position() < rows[i].key.position());
    } else if j > i {
        assert(rows[i].key.position() < rows[j].key.position());
    }
}

/// A key between two neighbouring rows is not in the table.
pub proof fn lemma_gap_not_in_map<K: TableKey, V>(rows: Seq<Row<K, V>>, i: int, key: K)
    requires
        rows_sorted(rows),
        0 <= i <= rows.len(),
        forall|j: int| 0 <= j < i ==> (#[trigger] rows[j]).key.position() < key.position(),
        forall|j: int| i <= j < rows.len() ==> (#[trigger] rows[j]).key.position() > key.position(),
    ensures
        !rows_map(rows).contains_key(key),
{
    if rows_map(rows).contains_key(key) {
        let j = choose|j: int| 0 <= j < rows.len() && (#[trigger] rows[j]).key == key;
        if j < i {
            assert(rows[j].key.position() < key.position());
        } else {
            assert(rows[j].key.position() > key.position());
        }
    }
}

/// Replacing the value of row `i` replaces what the map holds under its key.
pub proof fn lemma_map_after_update<K: TableKey, V>(rows: Seq<Row<K, V>>, i: int, value: V)
    requires
        rows_sorted(rows),
        0 <= i < rows.len(),
    ensures
        rows_sorted(rows.update(i, Row { key: rows[i].key, value })),
        rows_map(rows.update(i, Row { key: rows[i].key, value })) == rows_map(rows).insert(
            rows[i].key,
            value,
        ),
{
    let key = rows[i].key;
    let after = rows.update(i, Row { key, value });
    assert forall|p: int, q: int| 0 <= p < q < after.len() implies (#[trigger] after[p]).key.position()
        < (#[trigger] after[q]).key.position() by {
        assert(after[p].key == rows[p].key);
        assert(after[q].key == rows[q].key);
    }
    let m1 = rows_map(after);
    let m2 = rows_map(rows).insert(key, value);
    assert forall|k: K| m1.contains_key(k) <==> m2.contains_key(k) by {
        if m1.contains_key(k) {
            let j = choose|j: int| 0 <= j < after.len() && (#[trigger] after[j]).key == k;
            assert(rows[j].key == k);
        }
        if rows_map(rows).contains_key(k) {
            let j = choose|j: int| 0 <= j < rows.len() && (#[trigger] rows[j]).key == k;
            assert(after[j].key == k);
        }
        if k == key {
            assert(after[i].key == k);
        }
    }
    assert forall|k: K| m1.contains_key(k) implies m1[k] == m2[k] by {
        let j = choose|j: int| 0 <= j < after.len() && (#[trigger] after[j]).key == k;
        lemma_row_in_map(after, j);
        if j != i {
            assert(rows[j].key == k);
            lemma_row_in_map(rows, j);
            if k == key {
                if j < i {
                    assert(rows[j].key.position() < rows[i].key.position());
                } else {
                    assert(rows[i].key.position() < rows[j].key.position());
                }
            }
        }
    }
    assert(m1 =~= m2);
}

/// Putting a new row at its place in the order adds it to the map.
pub proof fn lemma_map_after_insert<K: TableKey, V>(rows: Seq<Row<K, V>>, i: int, row: Row<K, V>)
    requires
        rows_sorted(rows),
        0 <= i <= rows.len(),
        forall|j: int| 0 <= j < i ==> (#[trigger] rows[j]).key.position() < row.key.position(),
        forall|j: int|
            i <= j < rows.len() ==> (#[trigger] rows[j]).key.position() > row.key.position(),
    ensures
        rows_sorted(rows.insert(i, row)),
        rows_map(rows.insert(i, row)) == rows_map(rows).insert(row.key, row.value),
        !rows_map(rows).contains_key(row.key),
{
    rows.insert_ensures(i, row);
    lemma_gap_not_in_map(rows, i, row.key);
    let after = rows.insert(i, row);
    assert forall|p: int, q: int| 0 <= p < q < after.len() implies (#[trigger] after[p]).key.position()
        < (#[trigger] after[q]).key.position() by {
        if p < i {
            assert(after[p] == rows[p]);
        } else if p > i {
            assert(after[p] == rows[p - 1]);
        }
        if q < i {
            assert(after[q] == rows[q]);
        } else if q > i {
            assert(after[q] == rows[q - 1]);
        }
    }
    let m1 = rows_map(after);
    let m2 = rows_map(rows).insert(row.key, row.value);
    assert forall|k: K| m1.contains_key(k) <==> m2.contains_key(k) by {
        if m1.contains_key(k) {
            let j = choose|j: int| 0 <= j < after.len() && (#[trigger] after[j]).key == k;
            if j < i {
                assert(rows[j].key == k);
            } else if j > i {
                assert(rows[j - 1].key == k);
            }
        }
        if rows_map(rows).contains_key(k) {
            let j = choose|j: int| 0 <= j < rows.len() && (#[trigger] rows[j]).key == k;
            if j < i {
                assert(after[j].key == k);
            } else {
                assert(after[j + 1].key == k);
            }
        }
        if k == row.key {
            assert(after[i].key == k);
        }
    }
    assert forall|k: K| m1.contains_key(k) implies m1[k] == m2[k] by {
        let j = choose|j: int| 0 <= j < after.len() && (#[trigger] after[j]).key == k;
        lemma_row_in_map(after, j);
        if j < i {
            assert(after[j] == rows[j]);
            lemma_row_in_map(rows, j);
        } else if j > i {
            assert(after[j] == rows[j - 1]);
            lemma_row_in_map(rows, j - 1);
        }
    }
    assert(m1 =~= m2);
}

/// Taking row `i` out takes its key out of the map.
pub proof fn lemma_map_after_remove<K: TableKey, V>(rows: Seq<Row<K, V>>, i: int)
    requires
        rows_sorted(rows),
        0 <= i < rows.len(),
    ensures
        rows_sorted(rows.remove(i)),
        rows_map(rows.remove(i)) == rows_map(rows).remove(rows[i].key),
{
    rows.remove_ensures(i);
    let key = rows[i].key;
    let after = rows.remove(i);
    assert forall|p: int, q: int| 0 <= p < q < after.len() implies (#[trigger] after[p]).key.position()
        < (#[trigger] after[q]).key.position() by {
        if p < i {
            assert(after[p] == rows[p]);
        } else {
            assert(after[p] == rows[p + 1]);
        }
        if q < i {
            assert(after[q] == rows[q]);
        } else {
            assert(after[q] == rows[q + 1]);
        }
    }
    let m1 = rows_map(after);
    let m2 = rows_map(rows).remove(key);
    assert forall|k: K| m1.contains_key(k) <==> m2.contains_key(k) by {
        if m1.contains_key(k) {
            let j = choose|j: int| 0 <= j < after.len() && (#[trigger] after[j]).key == k;
            if j < i {
                assert(rows[j].key == k);
                assert(rows[j].key.position() < rows[i].key.position());
            } else {
                assert(rows[j + 1].key == k);
                assert(rows[i].key.position() < rows[j + 1].key.position());
            }
        }
        if rows_map(rows).contains_key(k) && k != key {
            let j = choose|j: int| 0 <= j < rows.len() && (#[trigger] rows[j]).key == k;
            if j < i {
                assert(after[j].key == k);
            } else {
                assert(after[j - 1].key == k);
            }
        }
    }
    assert forall|k: K| m1.contains_key(k) implies m1[k] == m2[k] by {
        let j = choose|j: int| 0 <= j < after.len() && (#[trigger] after[j]).key == k;
        lemma_row_in_map(after, j);
        if j < i {
            assert(after[j] == rows[j]);
            lemma_row_in_map(rows, j);
        } else {
            assert(after[j] == rows[j + 1]);
            lemma_row_in_map(rows, j + 1);
        }
    }
    assert(m1 =~= m2);
}

/// `key` is the least key of the map at or after position `bound`.
pub open spec fn least_key_from<K: TableKey, V>(m: Map<K, V>, bound: int, key: K) -> bool {
    &&& m.contains_key(key)
    &&& key.position() >= bound
    &&& forall|k: K| #[trigger] m.contains_key(k) && k.position() >= bound ==> key.position() <= k.position()
}

/// No key of the map is at or after position `bound`.
pub open spec fn no_key_from<K: TableKey, V>(m: Map<K, V>, bound: int) -> bool {
    forall|k: K| #[trigger] m.contains_key(k) ==> k.position() < bound
}

/// `key` is the greatest key of the map at or before position `bound`.
pub open spec fn greatest_key_until<K: TableKey, V>(m: Map<K, V>, bound: int, key: K) -> bool {
    &&& m.contains_key(key)
    &&& key.position() <= bound
    &&& forall|k: K| #[trigger] m.contains_key(k) && k.position() <= bound ==> k.position() <= key.position()
}

/// No key of the map is at or before position `bound`.
pub open spec fn no_key_until<K: TableKey, V>(m: Map<K, V>, bound: int) -> bool {
    forall|k: K| #[trigger] m.contains_key(k) ==> k.position() > bound
}

/// Why a table refused a write.
#[derive(Debug, Clone, Copy, PartialEq, Eq, Structural)]
pub enum WriteError {
    /// A row with the key is already in the table.
    KeyExist,
}

/// A write that a table refused: the table, the bytes of the key, and the
/// cause.
#[derive(Debug, PartialEq, Eq)]
pub struct WriteFailure {
    pub table: &'static str,
    pub key: Vec<u8>,
    pub error: WriteError,
}

/// A single-value table: a map from keys to values, walked in key order.
#[derive(Debug)]
pub struct Table<K: TableKey, V> {
    rows: Vec<Row<K, V>>,
    name: &'static str,
}

impl<K: TableKey, V> View for Table<K, V> {
    type V = Map<K, V>;

    closed spec fn view(&self) -> Map<K, V> {
        rows_map(self.rows@)
    }
}

impl<K: TableKey, V> Table<K, V> {
    #[verifier::type_invariant]
    closed spec fn ordered(self) -> bool {
        rows_sorted(self.rows@)
    }

    /// The number of rows.
    pub closed spec fn count(&self) -> nat {
        self.rows@.len()
    }

    /// The name of the table.
    pub closed spec fn label(&self) -> &'static str {
        self.name
    }

    /// The empty table without a name.
    pub fn new() -> (table: Self)
        ensures
            table@ == Map::<K, V>::empty(),
            table.count() == 0,
            table.label() == "",
    {
        Self::named("")
    }

    /// The empty table of the given name.
    pub fn named(name: &'static str) -> (table: Self)
        ensures
            table@ == Map::<K, V>::empty(),
            table.count() == 0,
            table.label() == name,
    {
        let table = Table { rows: Vec::new(), name };
        proof {
            assert(table@ =~= Map::<K, V>::empty());
        }
        table
    }

    /// The name of the table.
    pub fn name(&self) -> (name: &'static str)
        ensures
            name == self.label(),
    {
        self.name
    }

    /// The number of rows.
    pub fn entries(&self) -> (n: usize)
        ensures
            n == self.count(),
    {
        self.rows.len()
    }

    /// The index of the first row whose key is not before `key`.
    fn lower_bound(&self, key: &K) -> (i: usize)
        ensures
            i <= self.rows@.len(),
            forall|j: int| 0 <= j < i ==> (#[trigger] self.rows@[j]).key.position() < key.position(),
            forall|j: int|
                i <= j < self.rows@.len() ==> (#[trigger] self.rows@[j]).key.position()
                    >= key.position(),
    {
        proof {
            use_type_invariant(self);
        }
        let mut lo: usize = 0;
        let mut hi: usize = self.rows.len();
        while lo < hi
            invariant
                lo <= hi <= self.rows@.len(),
                rows_sorted(self.rows@),
                forall|j: int|
                    0 <= j < lo ==> (#[trigger] self.rows@[j]).key.position() < key.position(),
                forall|j: int|
                    hi <= j < self.rows@.len() ==> (#[trigger] self.rows@[j]).key.position()
                        >= key.position(),
            decreases hi - lo,
        {
            let mid = lo + (hi - lo) / 2;
            if self.rows[mid].key.is_before(key) {
                proof {
                    assert forall|j: int| 0 <= j < mid + 1 implies (
                    #[trigger] self.rows@[j]).key.position() < key.position() by {
                        if j < mid {
                            assert(self.rows@[j].key.position() < self.rows@[mid as int].key.position());
                        }
                    }
                }
                lo = mid + 1;
            } else {
                proof {
                    assert forall|j: int| mid <= j < self.rows@.len() implies (
                    #[trigger] self.rows@[j]).key.position() >= key.position() by {
                        if j > mid {
                            assert(self.rows@[mid as int].key.position() < self.rows@[j].key.position());
                        }
                    }
                }
                hi = mid;
            }
        }
        lo
    }

    /// What `lower_bound` found is the row of `key`, or the gap where it
    /// would stand.
    proof fn lemma_bound_decides(rows: Seq<Row<K, V>>, i: int, key: K)
        requires
            rows_sorted(rows),
            0 <= i <= rows.len(),
            forall|j: int| 0 <= j < i ==> (#[trigger] rows[j]).key.position() < key.position(),
            forall|j: int| i <= j < rows.len() ==> (#[trigger] rows[j]).key.position() >= key.position(),
        ensures
            i < rows.len() && rows[i].key == key ==> rows_map(rows).contains_key(key) && rows_map(
                rows,
            )[key] == rows[i].value,
            !(i < rows.len() && rows[i].key == key) ==> !rows_map(rows).contains_key(key) && (
            forall|j: int| i <= j < rows.len() ==> (#[trigger] rows[j]).key.position() > key.position()),
    {
        if i < rows.len() && rows[i].key == key {
            lemma_row_in_map(rows, i);
        } else {
            assert forall|j: int| i <= j < rows.len() implies (#[trigger] rows[j]).key.position()
                > key.position() by {
                if rows[j].key.position() == key.position() {
                    K::lemma_position_injective(rows[j].key, key);
                    if j > i {
                        assert(rows[i].key.position() < rows[j].key.position());
                    }
                }
            }
            lemma_gap_not_in_map(rows, i, key);
        }
    }

    /// The value under `key`, if the table has one.
    pub fn get(&self, key: &K) -> (r: Option<&V>)
        ensures
            match r {
                Some(v) => self@.contains_key(*key) && *v == self@[*key],
                None => !self@.contains_key(*key),
            },
    {
        let i = self.lower_bound(key);
        proof {
            use_type_invariant(self);
            Self::lemma_bound_decides(self.rows@, i as int, *key);
        }
        if i < self.rows.len() && self.rows[i].key.same_as(key) {
            Some(&self.rows[i].value)
        } else {
            None
        }
    }

    /// Whether the table has a value under `key`.
    pub fn contains_key(&self, key: &K) -> (b: bool)
        ensures
            b == self@.contains_key(*key),
    {
        self.get(key).is_some()
    }

    /// Sets the value under `key`, whether or not there was one.
    pub fn put(&mut self, key: K, value: V)
        ensures
            final(self)@ == old(self)@.insert(key, value),
            final(self).label() == old(self).label(),
            final(self).count() == old(self).count() + if old(self)@.contains_key(key) {
                0nat
            } else {
                1nat
            },
    {
        let i = self.lower_bound(&key);
        proof {
            use_type_invariant(&*self);
            Self::lemma_bound_decides(self.rows@, i as int, key);
        }
        let present = i < self.rows.len() && self.rows[i].key.same_as(&key);
        let mut rows: Vec<Row<K, V>> = Vec::new();
        core::mem::swap(&mut self.rows, &mut rows);
        if present {
            proof {
                lemma_map_after_update(rows@, i as int, value);
            }
            rows.set(i, Row { key, value });
        } else {
            proof {
                lemma_map_after_insert(rows@, i as int, Row { key, value });
            }
            rows.insert(i, Row { key, value });
        }
        self.rows = rows;
    }

    /// Adds a row for a key that has none. A key that has one is refused
    /// and the table stays as it is.
    pub fn insert(&mut self, key: K, value: V) -> (r: Result<(), WriteFailure>)
        ensures
            final(self).label() == old(self).label(),
            r is Ok <==> !old(self)@.contains_key(key),
            r matches Err(e) ==> e.table == old(self).label() && e.key@ == key.encoding()
                && e.error == WriteError::KeyExist,
            r is Ok ==> final(self)@ == old(self)@.insert(key, value) && final(self).count()
                == old(self).count() + 1,
            r is Err ==> final(self)@ == old(self)@ && final(self).count() == old(self).count(),
    {
        let i = self.lower_bound(&key);
        proof {
            use_type_invariant(&*self);
            Self::lemma_bound_decides(self.rows@, i as int, key);
        }
        if i < self.rows.len() && self.rows[i].key.same_as(&key) {
            return Err(
                WriteFailure { table: self.name, key: key.encode(), error: WriteError::KeyExist },
            );
        }
        let mut rows: Vec<Row<K, V>> = Vec::new();
        core::mem::swap(&mut self.rows, &mut rows);
        proof {
            lemma_map_after_insert(rows@, i as int, Row { key, value });
        }
        rows.insert(i, Row { key, value });
        self.rows = rows;
        Ok(())
    }

    /// Removes the row under `key` and hands back its value, if there was
    /// one.
    pub fn delete(&mut self, key: &K) -> (r: Option<V>)
        ensures
            final(self)@ == old(self)@.remove(*key),
            final(self).label() == old(self).label(),
            match r {
                Some(v) => old(self)@.contains_key(*key) && v == old(self)@[*key] && final(self).count() == old(self).count() - 1,
                None => !old(self)@.contains_key(*key) && final(self).count() == old(self).count(),
            },
    {
        let i = self.lower_bound(key);
        proof {
            use_type_invariant(&*self);
            Self::lemma_bound_decides(self.rows@, i as int, *key);
        }
        if i < self.rows.len() && self.rows[i].key.same_as(key) {
            let mut rows: Vec<Row<K, V>> = Vec::new();
            core::mem::swap(&mut self.rows, &mut rows);
            proof {
                lemma_map_after_remove(rows@, i as int);
            }
            let row = rows.remove(i);
            self.rows = rows;
            Some(row.value)
        } else {
            proof {
                assert(self@.remove(*key) =~= self@);
            }
            None
        }
    }
}

/// The two maps have the same keys, and under each key values of the
/// same content.
pub open spec fn same_contents<K: TableKey, V: Stored>(a: Map<K, V>, b: Map<K, V>) -> bool {
    &&& forall|k: K| a.contains_key(k) <==> b.contains_key(k)
    &&& forall|k: K| #[trigger] a.contains_key(k) ==> a[k].content() == b[k].content()
}

impl<K: TableKey, V: Stored> Table<K, V> {
    /// A second table with the same name and rows of the same content.
    pub fn replica(&self) -> (r: Self)
        ensures
            r.label() == self.label(),
            r.count() == self.count(),
            same_contents(self@, r@),
    {
        proof {
            use_type_invariant(self);
        }
        let mut rows: Vec<Row<K, V>> = Vec::new();
        let mut i: usize = 0;
        while i < self.rows.len()
            invariant
                i <= self.rows@.len(),
                rows@.len() == i,
                forall|j: int|
                    0 <= j < i ==> (#[trigger] rows@[j]).key == self.rows@[j].key
                        && rows@[j].value.content() == self.rows@[j].value.content(),
            decreases self.rows@.len() - i,
        {
            let row = Row { key: self.rows[i].key, value: self.rows[i].value.replica() };
            rows.push(row);
            i += 1;
        }
        proof {
            let old_rows = self.rows@;
            let new_rows = rows@;
            assert forall|p: int, q: int| 0 <= p < q < new_rows.len() implies (
            #[trigger] new_rows[p]).key.position() < (#[trigger] new_rows[q]).key.position() by {
                assert(old_rows[p].key.position() < old_rows[q].key.position());
            }
            assert forall|k: K| rows_map(old_rows).contains_key(k) <==> rows_map(
                new_rows,
            ).contains_key(k) by {
                if rows_map(old_rows).contains_key(k) {
                    let j = choose|j: int|
                        0 <= j < old_rows.len() && (#[trigger] old_rows[j]).key == k;
                    assert(new_rows[j].key == k);
                }
                if rows_map(new_rows).contains_key(k) {
                    let j = choose|j: int|
                        0 <= j < new_rows.len() && (#[trigger] new_rows[j]).key == k;
                    assert(old_rows[j].key == k);
                }
            }
            assert forall|k: K| #[trigger] rows_map(old_rows).contains_key(k) implies rows_map(
                old_rows,
            )[k].content() == rows_map(new_rows)[k].content() by {
                let j = choose|j: int| 0 <= j < old_rows.len() && (#[trigger] old_rows[j]).key == k;
                assert(new_rows[j].key == k);
                lemma_row_in_map(old_rows, j);
                lemma_row_in_map(new_rows, j);
            }
        }
        Table { rows, name: self.name }
    }
}

/// `key` is the least key of the map.
pub open spec fn is_least_key<K: TableKey, V>(m: Map<K, V>, key: K) -> bool {
    &&& m.contains_key(key)
    &&& forall|k: K| #[trigger] m.contains_key(k) ==> key.position() <= k.position()
}

/// `key` is the greatest key of the map.
pub open spec fn is_greatest_key<K: TableKey, V>(m: Map<K, V>, key: K) -> bool {
    &&& m.contains_key(key)
    &&& forall|k: K| #[trigger] m.contains_key(k) ==> k.position() <= key.position()
}

/// The rows at and after an index hold the keys at and after the key at
/// that index, and the rows before it the keys before.
proof fn lemma_index_splits_keys<K: TableKey, V>(rows: Seq<Row<K, V>>, i: int, k: K)
    requires
        rows_sorted(rows),
        0 <= i < rows.len(),
        rows_map(rows).contains_key(k),
    ensures
        k.position() < rows[i].key.position() ==> exists|j: int|
            0 <= j < i && (#[trigger] rows[j]).key == k,
        k.position() > rows[i].key.position() ==> exists|j: int|
            i < j < rows.len() && (#[trigger] rows[j]).key == k,
{
    let j = choose|j: int| 0 <= j < rows.len() && (#[trigger] rows[j]).key == k;
    if j < i {
        assert(rows[j].key.position() < rows[i].key.position());
    } else if j > i {
        assert(rows[i].key.position() < rows[j].key.position());
    }
}

/// A place in a table, from which the table is read row by row in key
/// order. The table cannot change while a cursor reads it.
#[derive(Debug)]
pub struct Cursor<'a, K: TableKey, V> {
    table: &'a Table<K, V>,
    at: Option<usize>,
}

impl<'a, K: TableKey, V> Cursor<'a, K, V> {
    #[verifier::type_invariant]
    closed spec fn in_table(self) -> bool {
        self.at matches Some(i) ==> i < self.table.rows@.len()
    }

    /// The table that the cursor reads.
    pub closed spec fn table(&self) -> Table<K, V> {
        *self.table
    }

    /// The key of the row at which the cursor stands, if it stands at one.
    pub closed spec fn key(&self) -> Option<K> {
        match self.at {
            Some(i) => Some(self.table.rows@[i as int].key),
            None => None,
        }
    }

    /// A cursor that stands at no row yet.
    pub fn new(table: &'a Table<K, V>) -> (cursor: Self)
        ensures
            cursor.table() == *table,
            cursor.key() is None,
    {
        Cursor { table, at: None }
    }

    /// What moving to the row at index `i` gives: the row, where there is
    /// one, and the cursor stays where it is where there is none.
    fn move_to(&mut self, i: usize) -> (r: Option<(K, &'a V)>)
        ensures
            final(self).table() == old(self).table(),
            match r {
                Some((k, v)) => i < old(self).table.rows@.len() && k == old(self).table.rows@[i as int].key && final(self).key() == Some(k) && final(self).at
                    == Some(i) && old(self).table()@.contains_key(k) && *v == old(self).table()@[k],
                None => i >= old(self).table.rows@.len() && final(self).key() == old(self).key()
                    && final(self).at == old(self).at,
            },
    {
        let table: &'a Table<K, V> = self.table;
        proof {
            use_type_invariant(table);
        }
        if i < table.rows.len() {
            proof {
                lemma_row_in_map(table.rows@, i as int);
            }
            self.at = Some(i);
            Some((table.rows[i].key, &table.rows[i].value))
        } else {
            None
        }
    }

    /// Moves to the first row of the table.
    pub fn first(&mut self) -> (r: Option<(K, &'a V)>)
        ensures
            final(self).table() == old(self).table(),
            match r {
                Some((k, v)) => is_least_key(old(self).table()@, k) && *v == old(self).table()@[k] && final(self).key() == Some(k),
                None => old(self).table()@ == Map::<K, V>::empty() && final(self).key() == old(self).key(),
            },
    {
        let ghost rows = self.table.rows@;
        proof {
            use_type_invariant(self.table);
            if rows.len() > 0 {
                assert forall|k: K| #[trigger] rows_map(rows).contains_key(k) implies rows[0].key.position()
                    <= k.position() by {
                    lemma_index_splits_keys(rows, 0, k);
                }
            } else {
                assert(rows_map(rows) =~= Map::<K, V>::empty());
            }
        }
        self.move_to(0)
    }

    /// Moves to the last row of the table.
    pub fn last(&mut self) -> (r: Option<(K, &'a V)>)
        ensures
            final(self).table() == old(self).table(),
            match r {
                Some((k, v)) => is_greatest_key(old(self).table()@, k) && *v == old(self).table()@[k]
                    && final(self).key() == Some(k),
                None => old(self).table()@ == Map::<K, V>::empty() && final(self).key() == old(self).key(),
            },
    {
        let ghost rows = self.table.rows@;
        let n = self.table.rows.len();
        proof {
            use_type_invariant(self.table);
            if rows.len() > 0 {
                assert forall|k: K| #[trigger] rows_map(rows).contains_key(k) implies k.position()
                    <= rows[rows.len() - 1].key.position() by {
                    lemma_index_splits_keys(rows, rows.len() - 1, k);
                }
            } else {
                assert(rows_map(rows) =~= Map::<K, V>::empty());
            }
        }
        if n == 0 {
            None
        } else {
            self.move_to(n - 1)
        }
    }

    /// Moves to the row after the one at which the cursor stands; to the
    /// first row where it stands at none. At the last row it stays.
    pub fn next(&mut self) -> (r: Option<(K, &'a V)>)
        ensures
            final(self).table() == old(self).table(),
            match (old(self).key(), r) {
                (Some(c), Some((k, v))) => least_key_from(old(self).table()@, c.position() + 1, k)
                    && *v == old(self).table()@[k] && final(self).key() == Some(k),
                (Some(c), None) => no_key_from(old(self).table()@, c.position() + 1) && final(self).key() == old(self).key(),
                (None, Some((k, v))) => is_least_key(old(self).table()@, k) && *v == old(self).table()@[k]
                    && final(self).key() == Some(k),
                (None, None) => old(self).table()@ == Map::<K, V>::empty() && final(self).key()
                    is None,
            },
    {
        match self.at {
            None => self.first(),
            Some(i) => {
                let ghost rows = self.table.rows@;
                let n = self.table.rows.len();
                proof {
                    use_type_invariant(&*self);
                    use_type_invariant(self.table);
                    let c = rows[i as int].key;
                    assert forall|k: K| #[trigger]
                        rows_map(rows).contains_key(k) && k.position() >= c.position()
                            + 1 implies i + 1 < rows.len() && rows[i + 1].key.position()
                        <= k.position() by {
                        lemma_index_splits_keys(rows, i as int, k);
                        let j = choose|j: int| i < j < rows.len() && (#[trigger] rows[j]).key == k;
                        if j > i + 1 {
                            assert(rows[i + 1].key.position() < rows[j].key.position());
                        }
                    }
                    if i + 1 < rows.len() {
                        assert(rows[i as int].key.position() < rows[i + 1].key.position());
                        lemma_row_in_map(rows, i + 1);
                    }
                }
                if i + 1 < n {
                    self.move_to(i + 1)
                } else {
                    None
                }
            },
        }
    }

    /// Moves to the row before the one at which the cursor stands; to the
    /// last row where it stands at none. At the first row it stays.
    pub fn prev(&mut self) -> (r: Option<(K, &'a V)>)
        ensures
            final(self).table() == old(self).table(),
            match (old(self).key(), r) {
                (Some(c), Some((k, v))) => greatest_key_until(old(self).table()@, c.position() - 1, k)
                    && *v == old(self).table()@[k] && final(self).key() == Some(k),
                (Some(c), None) => no_key_until(old(self).table()@, c.position() - 1) && final(self).key() == old(self).key(),
                (None, Some((k, v))) => is_greatest_key(old(self).table()@, k) && *v
                    == old(self).table()@[k] && final(self).key() == Some(k),
                (None, None) => old(self).table()@ == Map::<K, V>::empty() && final(self).key()
                    is None,
            },
    {
        match self.at {
            None => self.last(),
            Some(i) => {
                let ghost rows = self.table.rows@;
                proof {
                    use_type_invariant(&*self);
                    use_type_invariant(self.table);
                    let c = rows[i as int].key;
                    assert forall|k: K| #[trigger]
                        rows_map(rows).contains_key(k) && k.position() <= c.position()
                            - 1 implies i > 0 && k.position() <= rows[i - 1].key.position() by {
                        lemma_index_splits_keys(rows, i as int, k);
                        let j = choose|j: int| 0 <= j < i && (#[trigger] rows[j]).key == k;
                        if j < i - 1 {
                            assert(rows[j].key.position() < rows[i - 1].key.position());
                        }
                    }
                    if i > 0 {
                        assert(rows[i - 1].key.position() < rows[i as int].key.position());
                        lemma_row_in_map(rows, i - 1);
                    }
                }
                if i == 0 {
                    None
                } else {
                    self.move_to(i - 1)
                }
            },
        }
    }

    /// Moves to the first row whose key is `key` or after it. Where there
    /// is none the cursor stays.
    pub fn seek(&mut self, key: K) -> (r: Option<(K, &'a V)>)
        ensures
            final(self).table() == old(self).table(),
            match r {
                Some((k, v)) => least_key_from(old(self).table()@, key.position(), k) && *v
                    == old(self).table()@[k] && final(self).key() == Some(k),
                None => no_key_from(old(self).table()@, key.position()) && final(self).key() == old(self).key(),
            },
    {
        let table: &'a Table<K, V> = self.table;
        let i = table.lower_bound(&key);
        let ghost rows = table.rows@;
        proof {
            use_type_invariant(table);
            assert forall|k: K| #[trigger]
                rows_map(rows).contains_key(k) && k.position() >= key.position() implies i
                < rows.len() && rows[i as int].key.position() <= k.position() by {
                let j = choose|j: int| 0 <= j < rows.len() && (#[trigger] rows[j]).key == k;
                if j < i {
                    assert(rows[j].key.position() < key.position());
                } else if j > i {
                    assert(rows[i as int].key.position() < rows[j].key.position());
                }
            }
        }
        self.move_to(i)
    }

    /// Moves to the row of `key`. Where the table has none the cursor
    /// stays.
    pub fn set(&mut self, key: K) -> (r: Option<(K, &'a V)>)
        ensures
            final(self).table() == old(self).table(),
            match r {
                Some((k, v)) => k == key && old(self).table()@.contains_key(key) && *v
                    == old(self).table()@[key] && final(self).key() == Some(key),
                None => !old(self).table()@.contains_key(key) && final(self).key() == old(self).key(),
            },
    {
        let table: &'a Table<K, V> = self.table;
        let i = table.lower_bound(&key);
        proof {
            use_type_invariant(table);
            Table::<K, V>::lemma_bound_decides(table.rows@, i as int, key);
        }
        if i < table.rows.len() && table.rows[i].key.same_as(&key) {
            self.move_to(i)
        } else {
            None
        }
    }

    /// The row at which the cursor stands.
    pub fn current(&self) -> (r: Option<(K, &'a V)>)
        ensures
            match r {
                Some((k, v)) => self.key() == Some(k) && self.table()@.contains_key(k) && *v
                    == self.table()@[k],
                None => self.key() is None,
            },
    {
        let table: &'a Table<K, V> = self.table;
        match self.at {
            Some(i) => {
                proof {
                    use_type_invariant(self);
                    use_type_invariant(table);
                    lemma_row_in_map(table.rows@, i as int);
                }
                Some((table.rows[i].key, &table.rows[i].value))
            },
            None => None,
        }
    }
}

/// A walk over the rows of a table in key order, from a start key or from
/// the first row to the table's end.
#[derive(Debug)]
pub struct Walker<'a, K: TableKey, V> {
    cursor: Cursor<'a, K, V>,
    start: Option<K>,
    started: bool,
}

impl<'a, K: TableKey, V> Walker<'a, K, V> {
    /// The table that is walked.
    pub closed spec fn table(&self) -> Table<K, V> {
        self.cursor.table()
    }

    /// The position from which the keys are still to come.
    pub closed spec fn bound(&self) -> Option<int> {
        if self.started {
            match self.cursor.key() {
                Some(k) => Some(k.position() + 1),
                None => None,
            }
        } else {
            match self.start {
                Some(k) => Some(k.position()),
                None => None,
            }
        }
    }

    /// Whether the walk has handed out a row or found the table's end.
    pub closed spec fn started(&self) -> bool {
        self.started
    }

    /// A walk over `table` from `start_key`, or from the first row where
    /// none is given.
    pub fn new(table: &'a Table<K, V>, start_key: Option<K>) -> (walker: Self)
        ensures
            walker.table() == *table,
            !walker.started(),
            walker.bound() == match start_key {
                Some(k) => Some(k.position()),
                None => None,
            },
    {
        Walker { cursor: Cursor::new(table), start: start_key, started: false }
    }

    /// Hands out the next row: the row with the least key at or after the
    /// bound, and the first row where the walk has no bound yet. Once the
    /// rows have run out, nothing more comes.
    pub fn next(&mut self) -> (r: Option<(K, &'a V)>)
        ensures
            final(self).table() == old(self).table(),
            final(self).started(),
            match (old(self).bound(), r) {
                (Some(b), Some((k, v))) => least_key_from(old(self).table()@, b, k) && *v
                    == old(self).table()@[k] && final(self).bound() == Some(k.position() + 1),
                (Some(b), None) => no_key_from(old(self).table()@, b),
                (None, Some((k, v))) => !old(self).started() && is_least_key(old(self).table()@, k)
                    && *v == old(self).table()@[k] && final(self).bound() == Some(k.position() + 1),
                (None, None) => final(self).bound() is None,
            },
    {
        if self.started {
            match self.cursor.current() {
                Some(_) => self.cursor.next(),
                None => None,
            }
        } else {
            let table: &'a Table<K, V> = self.cursor.table;
            self.cursor = Cursor::new(table);
            self.started = true;
            match self.start {
                Some(k) => self.cursor.seek(k),
                None => self.cursor.first(),
            }
        }
    }
}

impl<K: TableKey, V> Table<K, V> {
    /// A cursor over the table.
    pub fn cursor(&self) -> (cursor: Cursor<'_, K, V>)
        ensures
            cursor.table() == *self,
            cursor.key() is None,
    {
        Cursor::new(self)
    }

    /// A walk over the table from `start_key`.
    pub fn walk(&self, start_key: Option<K>) -> (walker: Walker<'_, K, V>)
        ensures
            walker.table() == *self,
            !walker.started(),
            walker.bound() == match start_key {
                Some(k) => Some(k.position()),
                None => None,
            },
    {
        Walker::new(self, start_key)
    }
}

} // verus!
