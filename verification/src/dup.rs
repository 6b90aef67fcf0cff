//! Dup-sorted tables: several values per key, kept in the order of the
//! subkey that each value starts with.

use vstd::prelude::*;
use crate::key::TableKey;

verus! {

/// A value of a dup-sorted table. It starts with a subkey, by which the
/// values under one key are ordered first; values with the same subkey are
/// ordered by what follows it.
pub trait DupValue: Copy {
    type Subkey: TableKey;

    /// The subkey that the value starts with.
    spec fn subkey(self) -> Self::Subkey;

    /// The position of what follows the subkey, among the values that share
    /// the subkey.
    spec fn rest(self) -> int;

    /// A value is its subkey and what follows it.
    proof fn lemma_parts_determine(a: Self, b: Self)
        ensures
            a.subkey() == b.subkey() && a.rest() == b.rest() ==> a == b,
    ;

    fn get_subkey(&self) -> (s: Self::Subkey)
        ensures
            s == self.subkey(),
    ;

    /// Whether the two values are the same value.
    fn same_as(&self, other: &Self) -> (b: bool)
        ensures
            b == (*self == *other),
    ;

    /// Whether what follows this value's subkey comes before what follows
    /// the other's.
    fn rest_is_before(&self, other: &Self) -> (b: bool)
        ensures
            b == (self.rest() < other.rest()),
    ;
}

/// One row of a dup-sorted table.
#[derive(Debug)]
pub struct DupRow<K, E> {
    pub key: K,
    pub value: E,
}

/// Row `a` stands before row `b`: by key, then by subkey, then by the rest
/// of the value.
pub open spec fn dup_before<K: TableKey, E: DupValue>(a: DupRow<K, E>, b: DupRow<K, E>) -> bool {
    a.key.position() < b.key.position() || (a.key.position() == b.key.position() && (
    a.value.subkey().position() < b.value.subkey().position() || (a.value.subkey().position()
        == b.value.subkey().position() && a.value.rest() < b.value.rest())))
}

/// The row stands before every row with the given key position, subkey
/// position and, where one is given, position of the rest.
pub open spec fn row_below<K: TableKey, E: DupValue>(
    row: DupRow<K, E>,
    key: int,
    subkey: int,
    rest: Option<int>,
) -> bool {
    row.key.position() < key || (row.key.position() == key && (row.value.subkey().position()
        < subkey || (row.value.subkey().position() == subkey && rest is Some && row.value.rest()
        < rest->0)))
}

/// The rows stand in strict order.
pub open spec fn dup_sorted<K: TableKey, E: DupValue>(rows: Seq<DupRow<K, E>>) -> bool {
    forall|i: int, j: int| 0 <= i < j < rows.len() ==> dup_before(#[trigger] rows[i], #[trigger] rows[j])
}

/// The set of pairs that the rows stand for.
pub open spec fn dup_set<K: TableKey, E: DupValue>(rows: Seq<DupRow<K, E>>) -> Set<(K, E)> {
    Set::new(
        |p: (K, E)|
            exists|i: int|
                0 <= i < rows.len() && (#[trigger] rows[i]).key == p.0 && rows[i].value == p.1,
    )
}

/// Value `a` does not stand after value `b` under the same key.
pub open spec fn value_not_after<E: DupValue>(a: E, b: E) -> bool {
    a.subkey().position() < b.subkey().position() || (a.subkey().position()
        == b.subkey().position() && a.rest() <= b.rest())
}

/// `r` is what a seek under `key` from subkey position `bound` finds: the
/// first value under the key whose subkey is at or after the bound, or
/// nothing where the key has no such value.
pub open spec fn first_dup_from<K: TableKey, E: DupValue>(
    s: Set<(K, E)>,
    key: K,
    bound: int,
    r: Option<E>,
) -> bool {
    match r {
        Some(e) => {
            &&& s.contains((key, e))
            &&& e.subkey().position() >= bound
            &&& forall|e2: E| #[trigger]
                s.contains((key, e2)) && e2.subkey().position() >= bound ==> value_not_after(e, e2)
        },
        None => forall|e2: E| #[trigger] s.contains((key, e2)) ==> e2.subkey().position() < bound,
    }
}

/// Rows with the same positions are the same row.
pub proof fn lemma_row_determined<K: TableKey, E: DupValue>(a: DupRow<K, E>, b: DupRow<K, E>)
    ensures
        a.key.position() == b.key.position() && a.value.subkey().position()
            == b.value.subkey().position() && a.value.rest() == b.value.rest() ==> a == b,
{
    K::lemma_position_injective(a.key, b.key);
    E::Subkey::lemma_position_injective(a.value.subkey(), b.value.subkey());
    E::lemma_parts_determine(a.value, b.value);
}

/// Putting a new row at its place in the order adds its pair to the set.
pub proof fn lemma_dup_after_insert<K: TableKey, E: DupValue>(
    rows: Seq<DupRow<K, E>>,
    i: int,
    row: DupRow<K, E>,
)
    requires
        dup_sorted(rows),
        0 <= i <= rows.len(),
        forall|j: int| 0 <= j < i ==> dup_before(#[trigger] rows[j], row),
        forall|j: int| i <= j < rows.len() ==> dup_before(row, #[trigger] rows[j]),
    ensures
        dup_sorted(rows.insert(i, row)),
        dup_set(rows.insert(i, row)) == dup_set(rows).insert((row.key, row.value)),
        !dup_set(rows).contains((row.key, row.value)),
{
    rows.insert_ensures(i, row);
    let after = rows.insert(i, row);
    assert forall|p: int, q: int| 0 <= p < q < after.len() implies dup_before(
        #[trigger] after[p],
        #[trigger] after[q],
    ) by {
        if p < i {
            assert(after[p] == rows[p]);
        } else if p > i {
            assert(after[p] == rows[p - 1]);
        }
        if q < i {
            assert(after[q] == rows[q]);
        } else if q > i {
            assert(after[q] == rows[q - 1]);
        }
    }
    let s1 = dup_set(after);
    let s2 = dup_set(rows).insert((row.key, row.value));
    assert forall|p: (K, E)| s1.contains(p) <==> s2.contains(p) by {
        if s1.contains(p) {
            let j = choose|j: int|
                0 <= j < after.len() && (#[trigger] after[j]).key == p.0 && after[j].value == p.1;
            if j < i {
                assert(rows[j].key == p.0 && rows[j].value == p.1);
            } else if j > i {
                assert(rows[j - 1].key == p.0 && rows[j - 1].value == p.1);
            }
        }
        if dup_set(rows).contains(p) {
            let j = choose|j: int|
                0 <= j < rows.len() && (#[trigger] rows[j]).key == p.0 && rows[j].value == p.1;
            if j < i {
                assert(after[j].key == p.0 && after[j].value == p.1);
            } else {
                assert(after[j + 1].key == p.0 && after[j + 1].value == p.1);
            }
        }
        if p == (row.key, row.value) {
            assert(after[i].key == p.0 && after[i].value == p.1);
        }
    }
    assert(s1 =~= s2);
    if dup_set(rows).contains((row.key, row.value)) {
        let j = choose|j: int|
            0 <= j < rows.len() && (#[trigger] rows[j]).key == row.key && rows[j].value
                == row.value;
        if j < i {
            assert(dup_before(rows[j], row));
        } else {
            assert(dup_before(row, rows[j]));
        }
    }
}

/// Taking row `i` out takes its pair out of the set.
pub proof fn lemma_dup_after_remove<K: TableKey, E: DupValue>(rows: Seq<DupRow<K, E>>, i: int)
    requires
        dup_sorted(rows),
        0 <= i < rows.len(),
    ensures
        dup_sorted(rows.remove(i)),
        dup_set(rows.remove(i)) == dup_set(rows).remove((rows[i].key, rows[i].value)),
{
    rows.remove_ensures(i);
    let gone = (rows[i].key, rows[i].value);
    let after = rows.remove(i);
    assert forall|p: int, q: int| 0 <= p < q < after.len() implies dup_before(
        #[trigger] after[p],
        #[trigger] after[q],
    ) by {
        if p < i {
            assert(after[p] == rows[p]);
        } else {
            assert(after[p] == rows[p + 1]);
        }
        if q < i {
            assert(after[q] == rows[q]);
        } else {
            assert(after[q] == rows[q + 1]);
        }
    }
    let s1 = dup_set(after);
    let s2 = dup_set(rows).remove(gone);
    assert forall|p: (K, E)| s1.contains(p) <==> s2.contains(p) by {
        if s1.contains(p) {
            let j = choose|j: int|
                0 <= j < after.len() && (#[trigger] after[j]).key == p.0 && after[j].value == p.1;
            if j < i {
                assert(rows[j].key == p.0 && rows[j].value == p.1);
                assert(dup_before(rows[j], rows[i]));
            } else {
                assert(rows[j + 1].key == p.0 && rows[j + 1].value == p.1);
                assert(dup_before(rows[i], rows[j + 1]));
            }
        }
        if dup_set(rows).contains(p) && p != gone {
            let j = choose|j: int|
                0 <= j < rows.len() && (#[trigger] rows[j]).key == p.0 && rows[j].value == p.1;
            if j < i {
                assert(after[j].key == p.0 && after[j].value == p.1);
            } else {
                assert(after[j - 1].key == p.0 && after[j - 1].value == p.1);
            }
        }
    }
    assert(s1 =~= s2);
}

/// Where the rows below a bound end, a seek from the bound finds the row
/// that stands there, if it has the key.
pub proof fn lemma_seek_found<K: TableKey, E: DupValue>(
    rows: Seq<DupRow<K, E>>,
    i: int,
    key: K,
    bound: int,
)
    requires
        dup_sorted(rows),
        0 <= i <= rows.len(),
        forall|j: int| 0 <= j < i ==> row_below(#[trigger] rows[j], key.position(), bound, None),
        forall|j: int|
            i <= j < rows.len() ==> !row_below(#[trigger] rows[j], key.position(), bound, None),
    ensures
        first_dup_from(
            dup_set(rows),
            key,
            bound,
            if i < rows.len() && rows[i].key == key {
                Some(rows[i].value)
            } else {
                None
            },
        ),
{
    let s = dup_set(rows);
    if i < rows.len() && rows[i].key == key {
        let e = rows[i].value;
        assert(rows[i].key == key && rows[i].value == e);
        assert(!row_below(rows[i], key.position(), bound, None));
        assert forall|e2: E| #[trigger]
            s.contains((key, e2)) && e2.subkey().position() >= bound implies value_not_after(
            e,
            e2,
        ) by {
            let j = choose|j: int|
                0 <= j < rows.len() && (#[trigger] rows[j]).key == key && rows[j].value == e2;
            if j < i {
                assert(row_below(rows[j], key.position(), bound, None));
            } else if j > i {
                assert(dup_before(rows[i], rows[j]));
            }
        }
    } else {
        assert forall|e2: E| #[trigger] s.contains((key, e2)) implies e2.subkey().position()
            < bound by {
            let j = choose|j: int|
                0 <= j < rows.len() && (#[trigger] rows[j]).key == key && rows[j].value == e2;
            if j >= i {
                assert(!row_below(rows[j], key.position(), bound, None));
                assert(!row_below(rows[i], key.position(), bound, None));
                if j > i {
                    assert(dup_before(rows[i], rows[j]));
                }
                K::lemma_position_injective(rows[i].key, key);
            } else {
                assert(row_below(rows[j], key.position(), bound, None));
            }
        }
    }
}

/// A seek finds one thing only.
pub proof fn lemma_first_dup_unique<K: TableKey, E: DupValue>(
    s: Set<(K, E)>,
    key: K,
    bound: int,
    r1: Option<E>,
    r2: Option<E>,
)
    requires
        first_dup_from(s, key, bound, r1),
        first_dup_from(s, key, bound, r2),
    ensures
        r1 == r2,
{
    match (r1, r2) {
        (Some(e1), Some(e2)) => {
            assert(s.contains((key, e1)));
            assert(s.contains((key, e2)));
            assert(value_not_after(e1, e2));
            assert(value_not_after(e2, e1));
            E::Subkey::lemma_position_injective(e1.subkey(), e2.subkey());
            E::lemma_parts_determine(e1, e2);
        },
        (Some(e1), None) => {
            assert(s.contains((key, e1)));
        },
        (None, Some(e2)) => {
            assert(s.contains((key, e2)));
        },
        (None, None) => {},
    }
}

/// `e` is a value under `key` with exactly the subkey `subkey`.
pub open spec fn exact_row<K: TableKey, E: DupValue>(
    s: Set<(K, E)>,
    key: K,
    subkey: E::Subkey,
    e: E,
) -> bool {
    s.contains((key, e)) && e.subkey() == subkey
}

/// At most one value under `key` has the subkey `subkey`.
pub open spec fn unique_subkey<K: TableKey, E: DupValue>(
    s: Set<(K, E)>,
    key: K,
    subkey: E::Subkey,
) -> bool {
    forall|e1: E, e2: E|
        #![trigger s.contains((key, e1)), s.contains((key, e2))]
        exact_row(s, key, subkey, e1) && exact_row(s, key, subkey, e2) ==> e1 == e2
}

/// The pairs of `s` but for the values under `key` with the subkey
/// `subkey`.
pub open spec fn without_subkey<K: TableKey, E: DupValue>(
    s: Set<(K, E)>,
    key: K,
    subkey: E::Subkey,
) -> Set<(K, E)> {
    Set::new(|p: (K, E)| s.contains(p) && !(p.0 == key && p.1.subkey() == subkey))
}

/// What an exact read of `key` and `subkey` gives where a seek from the
/// subkey found `found`: the value found if it has the subkey, else
/// nothing.
pub open spec fn exact_of<E: DupValue>(found: Option<E>, subkey: E::Subkey) -> Option<E> {
    match found {
        Some(e) => if e.subkey() == subkey {
            Some(e)
        } else {
            None
        },
        None => None,
    }
}

/// Where the subkey has one value only, a seek from the subkey finds it.
pub proof fn lemma_seek_finds_exact<K: TableKey, E: DupValue>(
    s: Set<(K, E)>,
    key: K,
    subkey: E::Subkey,
    e: E,
)
    requires
        unique_subkey(s, key, subkey),
        exact_row(s, key, subkey, e),
    ensures
        first_dup_from(s, key, subkey.position(), Some(e)),
{
    assert forall|e2: E| #[trigger]
        s.contains((key, e2)) && e2.subkey().position() >= subkey.position() implies value_not_after(
        e,
        e2,
    ) by {
        if e2.subkey().position() == subkey.position() {
            E::Subkey::lemma_position_injective(e2.subkey(), subkey);
            assert(exact_row(s, key, subkey, e2));
            assert(s.contains((key, e)));
        }
    }
}

/// Where the subkey has no value, a seek from the subkey finds a value
/// with a later subkey, or nothing.
pub proof fn lemma_seek_misses<K: TableKey, E: DupValue>(
    s: Set<(K, E)>,
    key: K,
    subkey: E::Subkey,
    found: Option<E>,
)
    requires
        first_dup_from(s, key, subkey.position(), found),
    ensures
        exact_of(found, subkey) is None <==> (forall|e: E| !exact_row(s, key, subkey, e)),
        exact_of(found, subkey) matches Some(e) ==> exact_row(s, key, subkey, e),
{
    match found {
        Some(f) => {
            assert(s.contains((key, f)));
            if f.subkey() == subkey {
                assert(exact_row(s, key, subkey, f));
            } else {
                assert forall|e: E| !exact_row(s, key, subkey, e) by {
                    if exact_row(s, key, subkey, e) {
                        assert(s.contains((key, e)));
                        assert(value_not_after(f, e));
                        E::Subkey::lemma_position_injective(f.subkey(), subkey);
                    }
                }
            }
        },
        None => {
            assert forall|e: E| !exact_row(s, key, subkey, e) by {
                if exact_row(s, key, subkey, e) {
                    assert(s.contains((key, e)));
                }
            }
        },
    }
}

/// The set after a value was put in place of the one that a seek from its
/// subkey found with the same subkey.
pub open spec fn replaced<K: TableKey, E: DupValue>(
    s: Set<(K, E)>,
    key: K,
    found: Option<E>,
    value: E,
) -> Set<(K, E)> {
    match exact_of(found, value.subkey()) {
        Some(e) => s.remove((key, e)).insert((key, value)),
        None => s.insert((key, value)),
    }
}

/// Where the subkey had one value at most, putting a value in place of it
/// leaves the subkey with the new value alone.
pub proof fn lemma_replaced_unique<K: TableKey, E: DupValue>(
    s: Set<(K, E)>,
    key: K,
    found: Option<E>,
    value: E,
)
    requires
        first_dup_from(s, key, value.subkey().position(), found),
        unique_subkey(s, key, value.subkey()),
    ensures
        replaced(s, key, found, value) == without_subkey(s, key, value.subkey()).insert(
            (key, value),
        ),
        unique_subkey(replaced(s, key, found, value), key, value.subkey()),
{
    let subkey = value.subkey();
    lemma_seek_misses(s, key, subkey, found);
    let a = replaced(s, key, found, value);
    let b = without_subkey(s, key, subkey).insert((key, value));
    assert forall|p: (K, E)| a.contains(p) <==> b.contains(p) by {
        match exact_of(found, subkey) {
            Some(e) => {
                assert(exact_row(s, key, subkey, e));
                if s.contains(p) && p.0 == key && p.1.subkey() == subkey {
                    assert(exact_row(s, key, subkey, p.1));
                    assert(s.contains((key, p.1)));
                    assert(s.contains((key, e)));
                    assert(p.1 == e);
                }
            },
            None => {
                if s.contains(p) && p.0 == key && p.1.subkey() == subkey {
                    assert(exact_row(s, key, subkey, p.1));
                }
            },
        }
    }
    assert(a =~= b);
    assert forall|e1: E, e2: E|
        #![trigger a.contains((key, e1)), a.contains((key, e2))]
        exact_row(a, key, subkey, e1) && exact_row(a, key, subkey, e2) implies e1 == e2 by {
        assert(b.contains((key, e1)));
        assert(b.contains((key, e2)));
    }
}

/// A dup-sorted table: a set of key and value pairs, walked in the order
/// of key, subkey and the rest of the value.
#[derive(Debug)]
pub struct DupTable<K: TableKey, E: DupValue> {
    rows: Vec<DupRow<K, E>>,
}

impl<K: TableKey, E: DupValue> View for DupTable<K, E> {
    type V = Set<(K, E)>;

    closed spec fn view(&self) -> Set<(K, E)> {
        dup_set(self.rows@)
    }
}

impl<K: TableKey, E: DupValue> DupTable<K, E> {
    #[verifier::type_invariant]
    closed spec fn ordered(self) -> bool {
        dup_sorted(self.rows@)
    }

    /// The number of rows.
    pub closed spec fn count(&self) -> nat {
        self.rows@.len()
    }

    /// The empty table.
    pub fn new() -> (table: Self)
        ensures
            table@ == Set::<(K, E)>::empty(),
            table.count() == 0,
    {
        let table = DupTable { rows: Vec::new() };
        proof {
            assert(table@ =~= Set::<(K, E)>::empty());
        }
        table
    }

    /// The number of rows.
    pub fn entries(&self) -> (n: usize)
        ensures
            n == self.count(),
    {
        self.rows.len()
    }

    /// Whether the row stands below the bound made of a key, a subkey and,
    /// where one is given, a value.
    fn is_below(row: &DupRow<K, E>, key: &K, subkey: &E::Subkey, value: Option<&E>) -> (b: bool)
        requires
            value matches Some(v) ==> v.subkey() == *subkey,
        ensures
            b == row_below(
                *row,
                key.position(),
                subkey.position(),
                match value {
                    Some(v) => Some(v.rest()),
                    None => None,
                },
            ),
    {
        proof {
            K::lemma_position_injective(row.key, *key);
            E::Subkey::lemma_position_injective(row.value.subkey(), *subkey);
        }
        if row.key.is_before(key) {
            true
        } else if row.key.same_as(key) {
            let sub = row.value.get_subkey();
            if sub.is_before(subkey) {
                true
            } else if sub.same_as(subkey) {
                match value {
                    Some(v) => row.value.rest_is_before(v),
                    None => false,
                }
            } else {
                false
            }
        } else {
            false
        }
    }

    /// The index of the first row that is not below the bound.
    fn lower_bound(&self, key: &K, subkey: &E::Subkey, value: Option<&E>) -> (i: usize)
        requires
            value matches Some(v) ==> v.subkey() == *subkey,
        ensures
            i <= self.rows@.len(),
            forall|j: int|
                0 <= j < i ==> row_below(
                    #[trigger] self.rows@[j],
                    key.position(),
                    subkey.position(),
                    match value {
                        Some(v) => Some(v.rest()),
                        None => None,
                    },
                ),
            forall|j: int|
                i <= j < self.rows@.len() ==> !row_below(
                    #[trigger] self.rows@[j],
                    key.position(),
                    subkey.position(),
                    match value {
                        Some(v) => Some(v.rest()),
                        None => None,
                    },
                ),
    {
        proof {
            use_type_invariant(self);
        }
        let ghost rest: Option<int> = match value {
            Some(v) => Some(v.rest()),
            None => None,
        };
        let mut lo: usize = 0;
        let mut hi: usize = self.rows.len();
        while lo < hi
            invariant
                lo <= hi <= self.rows@.len(),
                dup_sorted(self.rows@),
                value matches Some(v) ==> v.subkey() == *subkey,
                rest == match value {
                    Some(v) => Some(v.rest()),
                    None => None,
                },
                forall|j: int|
                    0 <= j < lo ==> row_below(
                        #[trigger] self.rows@[j],
                        key.position(),
                        subkey.position(),
                        rest,
                    ),
                forall|j: int|
                    hi <= j < self.rows@.len() ==> !row_below(
                        #[trigger] self.rows@[j],
                        key.position(),
                        subkey.position(),
                        rest,
                    ),
            decreases hi - lo,
        {
            let mid = lo + (hi - lo) / 2;
            if Self::is_below(&self.rows[mid], key, subkey, value) {
                proof {
                    assert forall|j: int| 0 <= j < mid + 1 implies row_below(
                        #[trigger] self.rows@[j],
                        key.position(),
                        subkey.position(),
                        rest,
                    ) by {
                        if j < mid {
                            assert(dup_before(self.rows@[j], self.rows@[mid as int]));
                        }
                    }
                }
                lo = mid + 1;
            } else {
                proof {
                    assert forall|j: int| mid <= j < self.rows@.len() implies !row_below(
                        #[trigger] self.rows@[j],
                        key.position(),
                        subkey.position(),
                        rest,
                    ) by {
                        if j > mid {
                            assert(dup_before(self.rows@[mid as int], self.rows@[j]));
                        }
                    }
                }
                hi = mid;
            }
        }
        lo
    }

    /// The first value under `key` whose subkey is at or after `subkey`.
    pub fn seek_by_key_subkey(&self, key: &K, subkey: &E::Subkey) -> (r: Option<E>)
        ensures
            first_dup_from(self@, *key, subkey.position(), r),
    {
        let i = self.lower_bound(key, subkey, None);
        proof {
            use_type_invariant(self);
            lemma_seek_found(self.rows@, i as int, *key, subkey.position());
        }
        if i < self.rows.len() && self.rows[i].key.same_as(key) {
            Some(self.rows[i].value)
        } else {
            None
        }
    }

    /// Whether the table holds `value` under `key`.
    pub fn contains(&self, key: &K, value: &E) -> (b: bool)
        ensures
            b == self@.contains((*key, *value)),
    {
        let subkey = value.get_subkey();
        let i = self.lower_bound(key, &subkey, Some(value));
        proof {
            use_type_invariant(self);
        }
        if i < self.rows.len() && self.rows[i].key.same_as(key) && self.rows[i].value.same_as(
            value,
        ) {
            proof {
                assert(self.rows@[i as int].key == *key && self.rows@[i as int].value == *value);
            }
            true
        } else {
            proof {
                let rows = self.rows@;
                let row = DupRow { key: *key, value: *value };
                if self@.contains((*key, *value)) {
                    let j = choose|j: int|
                        0 <= j < rows.len() && (#[trigger] rows[j]).key == *key && rows[j].value
                            == *value;
                    if j < i {
                        assert(row_below(
                            rows[j],
                            key.position(),
                            subkey.position(),
                            Some(value.rest()),
                        ));
                    } else if j > i {
                        assert(!row_below(
                            rows[i as int],
                            key.position(),
                            subkey.position(),
                            Some(value.rest()),
                        ));
                        assert(dup_before(rows[i as int], rows[j]));
                    }
                }
            }
            false
        }
    }

    /// Puts `value` under `key`, beside the values that the key has. A pair
    /// that the table holds already is not added again.
    pub fn put(&mut self, key: K, value: E)
        ensures
            final(self)@ == old(self)@.insert((key, value)),
            final(self).count() == old(self).count() + if old(self)@.contains((key, value)) {
                0nat
            } else {
                1nat
            },
    {
        let subkey = value.get_subkey();
        let i = self.lower_bound(&key, &subkey, Some(&value));
        proof {
            use_type_invariant(&*self);
        }
        let ghost rows0 = self.rows@;
        let row = DupRow { key, value };
        if i < self.rows.len() && self.rows[i].key.same_as(&key) && self.rows[i].value.same_as(
            &value,
        ) {
            proof {
                assert(rows0[i as int].key == key && rows0[i as int].value == value);
                assert(self@.insert((key, value)) =~= self@);
            }
            return ;
        }
        proof {
            assert forall|j: int| 0 <= j < i implies dup_before(#[trigger] rows0[j], row) by {
                assert(row_below(rows0[j], key.position(), subkey.position(), Some(value.rest())));
            }
            assert forall|j: int| i <= j < rows0.len() implies dup_before(row, #[trigger] rows0[j]) by {
                assert(!row_below(
                    rows0[i as int],
                    key.position(),
                    subkey.position(),
                    Some(value.rest()),
                ));
                lemma_row_determined(rows0[i as int], row);
                if j > i {
                    assert(dup_before(rows0[i as int], rows0[j]));
                }
            }
            lemma_dup_after_insert(rows0, i as int, row);
        }
        let mut rows: Vec<DupRow<K, E>> = Vec::new();
        core::mem::swap(&mut self.rows, &mut rows);
        rows.insert(i, row);
        self.rows = rows;
    }

    /// Removes `value` from under `key` and says whether it was there.
    pub fn delete(&mut self, key: &K, value: &E) -> (removed: bool)
        ensures
            final(self)@ == old(self)@.remove((*key, *value)),
            removed == old(self)@.contains((*key, *value)),
            final(self).count() == old(self).count() - if removed {
                1nat
            } else {
                0nat
            },
    {
        let present = self.contains(key, value);
        if !present {
            proof {
                assert(self@.remove((*key, *value)) =~= self@);
            }
            return false;
        }
        let subkey = value.get_subkey();
        let i = self.lower_bound(key, &subkey, Some(value));
        proof {
            use_type_invariant(&*self);
            let rows = self.rows@;
            let j = choose|j: int|
                0 <= j < rows.len() && (#[trigger] rows[j]).key == *key && rows[j].value == *value;
            if j < i {
                assert(row_below(rows[j], key.position(), subkey.position(), Some(value.rest())));
            } else if j > i {
                assert(!row_below(
                    rows[i as int],
                    key.position(),
                    subkey.position(),
                    Some(value.rest()),
                ));
                assert(dup_before(rows[i as int], rows[j]));
            }
            assert(j == i);
            lemma_dup_after_remove(rows, i as int);
        }
        let mut rows: Vec<DupRow<K, E>> = Vec::new();
        core::mem::swap(&mut self.rows, &mut rows);
        rows.remove(i);
        self.rows = rows;
        true
    }

    /// Puts `value` under `key` in place of the value that a seek from its
    /// subkey finds with the same subkey; where the seek finds none, beside
    /// the values that the key has.
    pub fn replace(&mut self, key: K, value: E) -> (found: Option<E>)
        ensures
            first_dup_from(old(self)@, key, value.subkey().position(), found),
            final(self)@ == replaced(old(self)@, key, found, value),
            unique_subkey(old(self)@, key, value.subkey()) ==> final(self)@ == without_subkey(
                old(self)@,
                key,
                value.subkey(),
            ).insert((key, value)) && unique_subkey(final(self)@, key, value.subkey()),
    {
        let subkey = value.get_subkey();
        let found = self.seek_by_key_subkey(&key, &subkey);
        proof {
            if unique_subkey(self@, key, subkey) {
                lemma_replaced_unique(self@, key, found, value);
            }
        }
        match found {
            Some(entry) => {
                if entry.get_subkey().same_as(&subkey) {
                    self.delete(&key, &entry);
                }
            },
            None => {},
        }
        self.put(key, value);
        found
    }
}


/// Pair `a` stands before pair `b` in a table's order.
pub open spec fn pair_before<K: TableKey, E: DupValue>(a: (K, E), b: (K, E)) -> bool {
    dup_before(DupRow { key: a.0, value: a.1 }, DupRow { key: b.0, value: b.1 })
}

/// `r` is the first pair of the set after the pair `c`; the first of all
/// where `c` is no pair.
pub open spec fn first_pair_after<K: TableKey, E: DupValue>(
    s: Set<(K, E)>,
    c: Option<(K, E)>,
    r: (K, E),
) -> bool {
    &&& s.contains(r)
    &&& c matches Some(cc) ==> pair_before(cc, r)
    &&& forall|p: (K, E)| #[trigger]
        s.contains(p) && (c matches Some(cc) ==> pair_before(cc, p)) ==> p == r || pair_before(
            r,
            p,
        )
}

/// The set has no pair after the pair `c`; none at all where `c` is no
/// pair.
pub open spec fn no_pair_after<K: TableKey, E: DupValue>(s: Set<(K, E)>, c: Option<(K, E)>) -> bool {
    forall|p: (K, E)| #[trigger] s.contains(p) ==> (c matches Some(cc) && !pair_before(cc, p))
}

/// The row after row `i` is the first pair after the pair of row `i`.
proof fn lemma_next_row<K: TableKey, E: DupValue>(rows: Seq<DupRow<K, E>>, i: int)
    requires
        dup_sorted(rows),
        -1 <= i < rows.len(),
    ensures
        i + 1 < rows.len() ==> first_pair_after(
            dup_set(rows),
            if i >= 0 {
                Some((rows[i].key, rows[i].value))
            } else {
                None
            },
            (rows[i + 1].key, rows[i + 1].value),
        ),
        i + 1 >= rows.len() ==> no_pair_after(
            dup_set(rows),
            if i >= 0 {
                Some((rows[i].key, rows[i].value))
            } else {
                None
            },
        ),
{
    let s = dup_set(rows);
    let c: Option<(K, E)> = if i >= 0 {
        Some((rows[i].key, rows[i].value))
    } else {
        None
    };
    if i + 1 < rows.len() {
        let r = (rows[i + 1].key, rows[i + 1].value);
        assert(rows[i + 1].key == r.0 && rows[i + 1].value == r.1);
        if i >= 0 {
            assert(dup_before(rows[i], rows[i + 1]));
        }
        assert forall|p: (K, E)| #[trigger]
            s.contains(p) && (c matches Some(cc) ==> pair_before(cc, p)) implies p == r
            || pair_before(r, p) by {
            let j = choose|j: int|
                0 <= j < rows.len() && (#[trigger] rows[j]).key == p.0 && rows[j].value == p.1;
            if i >= 0 && j < i {
                assert(dup_before(rows[j], rows[i]));
            }
            if j > i + 1 {
                assert(dup_before(rows[i + 1], rows[j]));
            }
        }
    } else {
        assert forall|p: (K, E)| #[trigger] s.contains(p) implies (c matches Some(cc)
            && !pair_before(cc, p)) by {
            let j = choose|j: int|
                0 <= j < rows.len() && (#[trigger] rows[j]).key == p.0 && rows[j].value == p.1;
            if j < i {
                assert(dup_before(rows[j], rows[i]));
            }
        }
    }
}

/// A place in a dup-sorted table, from which the table is read row by row
/// in its order. The table cannot change while a cursor reads it.
#[derive(Debug)]
pub struct DupCursor<'a, K: TableKey, E: DupValue> {
    table: &'a DupTable<K, E>,
    at: Option<usize>,
}

impl<'a, K: TableKey, E: DupValue> DupCursor<'a, K, E> {
    #[verifier::type_invariant]
    closed spec fn in_table(self) -> bool {
        self.at matches Some(i) ==> i < self.table.rows@.len()
    }

    /// The table that the cursor reads.
    pub closed spec fn table(&self) -> DupTable<K, E> {
        *self.table
    }

    /// The pair at which the cursor stands, if it stands at one.
    pub closed spec fn pair(&self) -> Option<(K, E)> {
        match self.at {
            Some(i) => Some((self.table.rows@[i as int].key, self.table.rows@[i as int].value)),
            None => None,
        }
    }

    /// A cursor that stands at no row yet.
    pub fn new(table: &'a DupTable<K, E>) -> (cursor: Self)
        ensures
            cursor.table() == *table,
            cursor.pair() is None,
    {
        DupCursor { table, at: None }
    }

    /// The pair at which the cursor stands.
    pub fn current(&self) -> (r: Option<(K, E)>)
        ensures
            r == self.pair(),
            r matches Some(p) ==> self.table()@.contains(p),
    {
        match self.at {
            Some(i) => {
                proof {
                    use_type_invariant(self);
                    let rows = self.table.rows@;
                    assert(rows[i as int].key == rows[i as int].key);
                }
                Some((self.table.rows[i].key, self.table.rows[i].value))
            },
            None => None,
        }
    }

    /// Moves to the row after the one at which the cursor stands; to the
    /// first row where it stands at none. At the last row it stays.
    pub fn next(&mut self) -> (r: Option<(K, E)>)
        ensures
            final(self).table() == old(self).table(),
            match r {
                Some(p) => first_pair_after(old(self).table()@, old(self).pair(), p) && final(self).pair() == Some(p),
                None => no_pair_after(old(self).table()@, old(self).pair()) && final(self).pair()
                    == old(self).pair(),
            },
    {
        let table: &'a DupTable<K, E> = self.table;
        let n = table.rows.len();
        proof {
            use_type_invariant(&*self);
            use_type_invariant(table);
            lemma_next_row(
                table.rows@,
                match self.at {
                    Some(i) => i as int,
                    None => -1,
                },
            );
        }
        let target: usize = match self.at {
            Some(i) => i + 1,
            None => 0,
        };
        if target < n {
            self.at = Some(target);
            Some((table.rows[target].key, table.rows[target].value))
        } else {
            None
        }
    }

    /// Moves to the next value of the key at which the cursor stands; to
    /// the first row where it stands at none. Where the next row has
    /// another key, or there is none, the cursor stays.
    pub fn next_dup(&mut self) -> (r: Option<(K, E)>)
        ensures
            final(self).table() == old(self).table(),
            match r {
                Some(p) => first_pair_after(old(self).table()@, old(self).pair(), p) && (old(self).pair() matches Some(c) ==> c.0 == p.0) && final(self).pair() == Some(p),
                None => final(self).pair() == old(self).pair() && forall|p: (K, E)|
                    #[trigger] first_pair_after(old(self).table()@, old(self).pair(), p) ==> (old(self).pair() matches Some(c) && c.0 != p.0),
            },
    {
        let table: &'a DupTable<K, E> = self.table;
        let n = table.rows.len();
        proof {
            use_type_invariant(&*self);
            use_type_invariant(table);
            lemma_next_row(
                table.rows@,
                match self.at {
                    Some(i) => i as int,
                    None => -1,
                },
            );
        }
        match self.at {
            Some(i) => {
                if i + 1 < n && table.rows[i + 1].key.same_as(&table.rows[i].key) {
                    self.at = Some(i + 1);
                    Some((table.rows[i + 1].key, table.rows[i + 1].value))
                } else {
                    None
                }
            },
            None => {
                if 0 < n {
                    self.at = Some(0);
                    Some((table.rows[0].key, table.rows[0].value))
                } else {
                    None
                }
            },
        }
    }

    /// Moves as `next_dup` does and hands back the value alone: nothing
    /// where the table has no next row, or the next row has another key.
    pub fn next_dup_val(&mut self) -> (r: Option<E>)
        ensures
            final(self).table() == old(self).table(),
            match r {
                Some(e) => final(self).pair() matches Some(p) && p.1 == e && first_pair_after(
                    old(self).table()@,
                    old(self).pair(),
                    p,
                ) && (old(self).pair() matches Some(c) ==> c.0 == p.0),
                None => final(self).pair() == old(self).pair() && forall|p: (K, E)|
                    #[trigger] first_pair_after(old(self).table()@, old(self).pair(), p) ==> (old(self).pair() matches Some(c) && c.0 != p.0),
            },
    {
        match self.next_dup() {
            Some(p) => Some(p.1),
            None => None,
        }
    }

    /// Moves to the first value under `key` whose subkey is at or after
    /// `subkey`. Where the key has none the cursor stays.
    pub fn seek_by_key_subkey(&mut self, key: K, subkey: E::Subkey) -> (r: Option<E>)
        ensures
            final(self).table() == old(self).table(),
            first_dup_from(old(self).table()@, key, subkey.position(), r),
            match r {
                Some(e) => final(self).pair() == Some((key, e)),
                None => final(self).pair() == old(self).pair(),
            },
    {
        let table: &'a DupTable<K, E> = self.table;
        let i = table.lower_bound(&key, &subkey, None);
        proof {
            use_type_invariant(table);
            lemma_seek_found(table.rows@, i as int, key, subkey.position());
        }
        if i < table.rows.len() && table.rows[i].key.same_as(&key) {
            self.at = Some(i);
            Some(table.rows[i].value)
        } else {
            None
        }
    }
}

/// A walk over the values of one key of a dup-sorted table, in their
/// order, from a subkey or from the key's first value.
#[derive(Debug)]
pub struct DupWalker<'a, K: TableKey, E: DupValue> {
    cursor: DupCursor<'a, K, E>,
    key: K,
    start: Option<E::Subkey>,
    started: bool,
}

impl<'a, K: TableKey, E: DupValue> DupWalker<'a, K, E> {
    /// The table that is walked.
    pub closed spec fn table(&self) -> DupTable<K, E> {
        self.cursor.table()
    }

    /// The key whose values are walked.
    pub closed spec fn walked_key(&self) -> K {
        self.key
    }

    /// Whether the walk has begun.
    pub closed spec fn started(&self) -> bool {
        self.started
    }

    /// The subkey from which the walk begins, while it has not begun.
    pub closed spec fn start(&self) -> Option<E::Subkey> {
        self.start
    }

    /// The pair that the walk handed out last.
    pub closed spec fn last(&self) -> Option<(K, E)> {
        if self.started {
            self.cursor.pair()
        } else {
            None
        }
    }

    /// Hands out the next value of the key, with the key: at first the
    /// first value whose subkey is at or after the start, then the value
    /// after the one handed out last. Once the key's values have run out,
    /// nothing more comes.
    pub fn next(&mut self) -> (r: Option<(K, E)>)
        ensures
            final(self).table() == old(self).table(),
            final(self).walked_key() == old(self).walked_key(),
            final(self).started(),
            r matches Some(p) ==> old(self).table()@.contains(p) && final(self).last() == Some(p),
            !old(self).started() ==> match old(self).start() {
                Some(s) => first_dup_from(
                    old(self).table()@,
                    old(self).walked_key(),
                    s.position(),
                    value_of(r),
                ),
                None => first_value_of(old(self).table()@, old(self).walked_key(), value_of(r)),
            } && (r matches Some(p) ==> p.0 == old(self).walked_key()) && (r is None
                ==> final(self).last() is None),
            old(self).started() ==> match old(self).last() {
                Some(c) => match r {
                    Some(p) => first_pair_after(old(self).table()@, Some(c), p) && p.0 == c.0,
                    None => final(self).last() == Some(c) && forall|p: (K, E)|
                        #[trigger] first_pair_after(old(self).table()@, Some(c), p) ==> c.0
                            != p.0,
                },
                None => r is None && final(self).last() is None,
            },
    {
        if self.started {
            match self.cursor.current() {
                Some(_) => self.cursor.next_dup(),
                None => None,
            }
        } else {
            let table: &'a DupTable<K, E> = self.cursor.table;
            self.cursor = DupCursor::new(table);
            self.started = true;
            let key = self.key;
            match self.start {
                Some(subkey) => {
                    match self.cursor.seek_by_key_subkey(key, subkey) {
                        Some(e) => Some((key, e)),
                        None => None,
                    }
                },
                None => {
                    let i = table.first_of_key(&key);
                    if i < table.rows.len() && table.rows[i].key.same_as(&key) {
                        proof {
                            let rows = table.rows@;
                            assert(rows[i as int].key == key);
                        }
                        self.cursor.at = Some(i);
                        Some((key, table.rows[i].value))
                    } else {
                        None
                    }
                },
            }
        }
    }
}

/// The value of a pair, if there is a pair.
pub open spec fn value_of<K: TableKey, E: DupValue>(r: Option<(K, E)>) -> Option<E> {
    match r {
        Some(p) => Some(p.1),
        None => None,
    }
}

/// `r` is the first value under `key`, or nothing where the key has no
/// value.
pub open spec fn first_value_of<K: TableKey, E: DupValue>(s: Set<(K, E)>, key: K, r: Option<E>) -> bool {
    match r {
        Some(e) => s.contains((key, e)) && forall|e2: E| #[trigger]
            s.contains((key, e2)) ==> value_not_after(e, e2),
        None => forall|e2: E| !#[trigger] s.contains((key, e2)),
    }
}

impl<K: TableKey, E: DupValue> DupTable<K, E> {
    /// The index of the first row whose key is not before `key`: where that
    /// row has the key, it holds the first value of the key.
    fn first_of_key(&self, key: &K) -> (i: usize)
        ensures
            i <= self.rows@.len(),
            first_value_of(
                self@,
                *key,
                if i < self.rows@.len() && self.rows@[i as int].key == *key {
                    Some(self.rows@[i as int].value)
                } else {
                    None
                },
            ),
    {
        proof {
            use_type_invariant(self);
        }
        let mut i: usize = 0;
        while i < self.rows.len() && self.rows[i].key.is_before(key)
            invariant
                i <= self.rows@.len(),
                forall|j: int| 0 <= j < i ==> (#[trigger] self.rows@[j]).key.position() < key.position(),
            decreases self.rows@.len() - i,
        {
            i += 1;
        }
        proof {
            let rows = self.rows@;
            let s = self@;
            if i < rows.len() && rows[i as int].key == *key {
                let e = rows[i as int].value;
                assert(rows[i as int].key == *key && rows[i as int].value == e);
                assert forall|e2: E| #[trigger] s.contains((*key, e2)) implies value_not_after(
                    e,
                    e2,
                ) by {
                    let j = choose|j: int|
                        0 <= j < rows.len() && (#[trigger] rows[j]).key == *key && rows[j].value
                            == e2;
                    if j > i {
                        assert(dup_before(rows[i as int], rows[j]));
                    }
                }
            } else {
                assert forall|e2: E| !#[trigger] s.contains((*key, e2)) by {
                    if s.contains((*key, e2)) {
                        let j = choose|j: int|
                            0 <= j < rows.len() && (#[trigger] rows[j]).key == *key
                                && rows[j].value == e2;
                        if j > i {
                            assert(dup_before(rows[i as int], rows[j]));
                            K::lemma_position_injective(rows[i as int].key, *key);
                        } else if j == i {
                        }
                    }
                }
            }
        }
        i
    }

    /// A second table with the same rows.
    pub fn replica(&self) -> (r: Self)
        ensures
            r@ == self@,
            r.count() == self.count(),
    {
        proof {
            use_type_invariant(self);
        }
        let mut rows: Vec<DupRow<K, E>> = Vec::new();
        let mut i: usize = 0;
        while i < self.rows.len()
            invariant
                i <= self.rows@.len(),
                rows@.len() == i,
                forall|j: int|
                    0 <= j < i ==> (#[trigger] rows@[j]).key == self.rows@[j].key && rows@[j].value
                        == self.rows@[j].value,
            decreases self.rows@.len() - i,
        {
            rows.push(DupRow { key: self.rows[i].key, value: self.rows[i].value });
            i += 1;
        }
        proof {
            let old_rows = self.rows@;
            let new_rows = rows@;
            assert forall|p: int, q: int| 0 <= p < q < new_rows.len() implies dup_before(
                #[trigger] new_rows[p],
                #[trigger] new_rows[q],
            ) by {
                assert(dup_before(old_rows[p], old_rows[q]));
            }
            assert forall|p: (K, E)| dup_set(old_rows).contains(p) <==> dup_set(new_rows).contains(
                p,
            ) by {
                if dup_set(old_rows).contains(p) {
                    let j = choose|j: int|
                        0 <= j < old_rows.len() && (#[trigger] old_rows[j]).key == p.0
                            && old_rows[j].value == p.1;
                    assert(new_rows[j].key == p.0 && new_rows[j].value == p.1);
                }
                if dup_set(new_rows).contains(p) {
                    let j = choose|j: int|
                        0 <= j < new_rows.len() && (#[trigger] new_rows[j]).key == p.0
                            && new_rows[j].value == p.1;
                    assert(old_rows[j].key == p.0 && old_rows[j].value == p.1);
                }
            }
            assert(dup_set(old_rows) =~= dup_set(new_rows));
        }
        DupTable { rows }
    }

    /// A cursor over the table.
    pub fn cursor(&self) -> (cursor: DupCursor<'_, K, E>)
        ensures
            cursor.table() == *self,
            cursor.pair() is None,
    {
        DupCursor::new(self)
    }

    /// A walk over the values of `key`, from `subkey` or from the key's
    /// first value.
    pub fn walk_dup(&self, key: K, subkey: Option<E::Subkey>) -> (walker: DupWalker<'_, K, E>)
        ensures
            walker.table() == *self,
            walker.walked_key() == key,
            walker.start() == subkey,
            !walker.started(),
    {
        DupWalker { cursor: DupCursor::new(self), key, start: subkey, started: false }
    }
}

} // verus!
