//! The block list: for one tracked entity, the blocks at which it changed.

use vstd::prelude::*;

verus! {

/// Every element is smaller than the elements behind it.
pub open spec fn strictly_increasing(s: Seq<u64>) -> bool {
    forall|i: int, j: int| 0 <= i < j < s.len() ==> s[i] < s[j]
}

/// The number of elements of `s` that are at most `n`.
pub open spec fn count_at_most(s: Seq<u64>, n: u64) -> nat
    decreases s.len(),
{
    if s.len() == 0 {
        0
    } else {
        count_at_most(s.drop_last(), n) + if s.last() <= n {
            1nat
        } else {
            0nat
        }
    }
}

/// The latest block of `s` at or before `n`: with `r` the rank of `n`,
/// nothing where `r` is 0, else the element at position `r - 1`.
pub open spec fn most_recent_change(s: Seq<u64>, n: u64) -> Option<u64> {
    let r = count_at_most(s, n);
    if r == 0 {
        None
    } else {
        Some(s[r - 1])
    }
}

/// The count never exceeds the length.
pub proof fn lemma_count_bounded(s: Seq<u64>, n: u64)
    ensures
        count_at_most(s, n) <= s.len(),
    decreases s.len(),
{
    if s.len() > 0 {
        lemma_count_bounded(s.drop_last(), n);
    }
}

/// In an increasing list the elements at most `n` form a prefix, and the
/// rank of `n` is that prefix's length.
pub proof fn lemma_count_is_prefix(s: Seq<u64>, n: u64, k: int)
    requires
        strictly_increasing(s),
        0 <= k <= s.len(),
        forall|i: int| 0 <= i < k ==> s[i] <= n,
        forall|i: int| k <= i < s.len() ==> s[i] > n,
    ensures
        count_at_most(s, n) == k,
    decreases s.len(),
{
    if s.len() > 0 {
        let t = s.drop_last();
        if k == s.len() {
            lemma_count_is_prefix(t, n, k - 1);
        } else {
            lemma_count_is_prefix(t, n, k);
        }
    }
}

/// In an increasing list, the rank of `n` splits the list: the elements
/// before it are at most `n`, the ones from it on are greater.
pub proof fn lemma_count_splits(s: Seq<u64>, n: u64)
    requires
        strictly_increasing(s),
    ensures
        count_at_most(s, n) <= s.len(),
        forall|i: int| 0 <= i < count_at_most(s, n) ==> s[i] <= n,
        forall|i: int| count_at_most(s, n) <= i < s.len() ==> s[i] > n,
    decreases s.len(),
{
    if s.len() > 0 {
        let t = s.drop_last();
        assert forall|i: int, j: int| 0 <= i < j < t.len() implies t[i] < t[j] by {
            assert(s[i] < s[j]);
        }
        lemma_count_splits(t, n);
        let k = count_at_most(t, n);
        if s.last() <= n {
            assert forall|i: int| 0 <= i < t.len() implies t[i] <= n by {
                assert(s[i] < s[s.len() - 1]);
            }
            lemma_count_is_prefix(t, n, t.len() as int);
            assert forall|i: int| 0 <= i < count_at_most(s, n) implies s[i] <= n by {
                if i < t.len() {
                    assert(t[i] <= n);
                }
            }
        } else {
            assert forall|i: int| 0 <= i < count_at_most(s, n) implies s[i] <= n by {
                assert(t[i] <= n);
            }
            assert forall|i: int| count_at_most(s, n) <= i < s.len() implies s[i] > n by {
                if i < t.len() {
                    assert(t[i] > n);
                }
            }
        }
    }
}

/// The latest block at or before `n` is an element, is at most `n`, and no
/// element at most `n` is later; there is none exactly when every element
/// is after `n`.
pub proof fn lemma_most_recent_change(s: Seq<u64>, n: u64)
    requires
        strictly_increasing(s),
    ensures
        match most_recent_change(s, n) {
            Some(b) => s.contains(b) && b <= n && forall|i: int|
                0 <= i < s.len() && s[i] <= n ==> s[i] <= b,
            None => forall|i: int| 0 <= i < s.len() ==> s[i] > n,
        },
{
    lemma_count_splits(s, n);
    let r = count_at_most(s, n);
    if r > 0 {
        assert(s[r - 1] <= n);
        assert forall|i: int| 0 <= i < s.len() && #[trigger] s[i] <= n implies s[i] <= s[r - 1] by {
            if i > r - 1 {
                assert(s[i] > n);
            }
        }
    }
}

/// Putting `x` between the elements below it and the elements above it
/// keeps the order, and adds `x` and nothing else.
pub proof fn lemma_insert_keeps_order(s: Seq<u64>, k: int, x: u64)
    requires
        strictly_increasing(s),
        0 <= k <= s.len(),
        forall|i: int| 0 <= i < k ==> s[i] < x,
        forall|i: int| k <= i < s.len() ==> s[i] > x,
    ensures
        strictly_increasing(s.insert(k, x)),
        forall|y: u64| s.insert(k, x).contains(y) <==> (s.contains(y) || y == x),
        !s.contains(x),
        k == s.len() ==> s.insert(k, x) == s.push(x),
{
    s.insert_ensures(k, x);
    let after = s.insert(k, x);
    assert forall|i: int, j: int| 0 <= i < j < after.len() implies after[i] < after[j] by {
        if i < k {
            assert(after[i] == s[i]);
        } else if i > k {
            assert(after[i] == s[i - 1]);
        }
        if j < k {
            assert(after[j] == s[j]);
        } else if j > k {
            assert(after[j] == s[j - 1]);
        }
    }
    assert forall|y: u64| after.contains(y) <==> (s.contains(y) || y == x) by {
        if after.contains(y) {
            let j = choose|j: int| 0 <= j < after.len() && after[j] == y;
            if j < k {
                assert(s[j] == y);
            } else if j > k {
                assert(s[j - 1] == y);
            }
        }
        if s.contains(y) {
            let j = choose|j: int| 0 <= j < s.len() && s[j] == y;
            if j < k {
                assert(after[j] == y);
            } else {
                assert(after[j + 1] == y);
            }
        }
        if y == x {
            assert(after[k] == y);
        }
    }
    if k == s.len() {
        assert(after =~= s.push(x));
    }
}

/// The blocks at which one entity changed: a set of block numbers kept in
/// increasing order.
#[derive(Debug)]
pub struct BlockList {
    blocks: Vec<u64>,
}

impl View for BlockList {
    type V = Seq<u64>;

    closed spec fn view(&self) -> Seq<u64> {
        self.blocks@
    }
}

impl BlockList {
    #[verifier::type_invariant]
    closed spec fn ordered(self) -> bool {
        strictly_increasing(self.blocks@)
    }

    /// The empty list.
    pub fn new() -> (list: BlockList)
        ensures
            list@ == Seq::<u64>::empty(),
    {
        BlockList { blocks: Vec::new() }
    }

    /// The list of the given blocks, in whatever order they come and
    /// however often each is named.
    pub fn from_blocks(blocks: &[u64]) -> (list: BlockList)
        ensures
            strictly_increasing(list@),
            forall|x: u64| list@.contains(x) <==> blocks@.contains(x),
    {
        let mut list = BlockList::new();
        let mut i: usize = 0;
        while i < blocks.len()
            invariant
                i <= blocks.len(),
                strictly_increasing(list@),
                forall|x: u64| list@.contains(x) <==> blocks@.subrange(0, i as int).contains(x),
            decreases blocks.len() - i,
        {
            let ghost before = list@;
            list.insert(blocks[i]);
            proof {
                let p = blocks@.subrange(0, i as int);
                let q = blocks@.subrange(0, i + 1);
                assert forall|x: u64| list@.contains(x) <==> q.contains(x) by {
                    if q.contains(x) {
                        let j = choose|j: int| 0 <= j < q.len() && q[j] == x;
                        if j < i {
                            assert(p[j] == x);
                        }
                    }
                    if p.contains(x) {
                        let j = choose|j: int| 0 <= j < p.len() && p[j] == x;
                        assert(q[j] == x);
                    }
                    if x == blocks[i as int] {
                        assert(q[i as int] == x);
                    }
                }
            }
            i += 1;
        }
        proof {
            assert(blocks@.subrange(0, i as int) =~= blocks@);
        }
        list
    }

    /// The number of blocks in the list.
    pub fn len(&self) -> (n: u64)
        ensures
            n == self@.len(),
    {
        self.blocks.len() as u64
    }

    pub fn is_empty(&self) -> (b: bool)
        ensures
            b == (self@.len() == 0),
    {
        self.blocks.len() == 0
    }

    /// Whether `block` is in the list.
    pub fn contains(&self, block: u64) -> (b: bool)
        ensures
            b == self@.contains(block),
    {
        proof {
            use_type_invariant(self);
            lemma_count_splits(self@, block);
        }
        let r = self.position_after(block);
        if r > 0 && self.blocks[r - 1] == block {
            true
        } else {
            proof {
                if self@.contains(block) {
                    let j = choose|j: int| 0 <= j < self@.len() && self@[j] == block;
                    if r > 0 {
                        if j < r - 1 {
                            assert(self@[j] < self@[r - 1]);
                        }
                    }
                }
            }
            false
        }
    }

    /// The latest block of the list.
    pub fn last(&self) -> (r: Option<u64>)
        ensures
            r == if self@.len() == 0 {
                None
            } else {
                Some(self@.last())
            },
    {
        let n = self.blocks.len();
        if n == 0 {
            None
        } else {
            Some(self.blocks[n - 1])
        }
    }

    /// A second list of the same blocks.
    pub fn duplicate(&self) -> (list: BlockList)
        ensures
            list@ == self@,
    {
        proof {
            use_type_invariant(self);
        }
        BlockList { blocks: self.blocks.clone() }
    }

    /// The blocks of the list, in increasing order.
    pub fn to_vec(&self) -> (v: Vec<u64>)
        ensures
            v@ == self@,
            strictly_increasing(v@),
    {
        proof {
            use_type_invariant(self);
        }
        self.blocks.clone()
    }

    /// The length of the prefix whose elements are at most `n`, found by
    /// halving the range that may hold its end.
    fn position_after(&self, n: u64) -> (k: usize)
        ensures
            k == count_at_most(self@, n),
            k <= self@.len(),
    {
        proof {
            use_type_invariant(self);
        }
        let mut lo: usize = 0;
        let mut hi: usize = self.blocks.len();
        while lo < hi
            invariant
                lo <= hi <= self.blocks@.len(),
                strictly_increasing(self.blocks@),
                forall|i: int| 0 <= i < lo ==> self.blocks@[i] <= n,
                forall|i: int| hi <= i < self.blocks@.len() ==> self.blocks@[i] > n,
            decreases hi - lo,
        {
            let mid = lo + (hi - lo) / 2;
            if self.blocks[mid] <= n {
                proof {
                    assert forall|i: int| 0 <= i < mid + 1 implies self.blocks@[i] <= n by {
                        if i < mid {
                            assert(self.blocks@[i] < self.blocks@[mid as int]);
                        }
                    }
                }
                lo = mid + 1;
            } else {
                proof {
                    assert forall|i: int| mid <= i < self.blocks@.len() implies self.blocks@[i]
                        > n by {
                        if i > mid {
                            assert(self.blocks@[mid as int] < self.blocks@[i]);
                        }
                    }
                }
                hi = mid;
            }
        }
        proof {
            lemma_count_is_prefix(self.blocks@, n, lo as int);
        }
        lo
    }

    /// The rank of `n`: how many blocks of the list are at most `n`.
    pub fn rank(&self, n: u64) -> (r: u64)
        ensures
            r == count_at_most(self@, n),
    {
        self.position_after(n) as u64
    }

    /// The block at position `i`, counting from 0 in increasing order.
    pub fn select(&self, i: u64) -> (r: Option<u64>)
        ensures
            r == if i < self@.len() {
                Some(self@[i as int])
            } else {
                None
            },
    {
        if i < self.blocks.len() as u64 {
            Some(self.blocks[i as usize])
        } else {
            None
        }
    }

    /// Adds `block` to the list and says whether it was new.
    pub fn insert(&mut self, block: u64) -> (added: bool)
        ensures
            added == !old(self)@.contains(block),
            strictly_increasing(final(self)@),
            forall|x: u64| final(self)@.contains(x) <==> (old(self)@.contains(x) || x == block),
            !added ==> final(self)@ == old(self)@,
            (old(self)@.len() == 0 || old(self)@.last() < block) ==> final(self)@ == old(self)@.push(block),
    {
        proof {
            use_type_invariant(&*self);
            lemma_count_splits(self@, block);
        }
        let ghost before = self.blocks@;
        let r = self.position_after(block);
        if r > 0 && self.blocks[r - 1] == block {
            return false;
        }
        proof {
            assert forall|i: int| 0 <= i < r implies before[i] < block by {
                if i < r - 1 {
                    assert(before[i] < before[r - 1]);
                }
            }
            lemma_insert_keeps_order(before, r as int, block);
            if before.len() > 0 && before.last() < block && r < before.len() {
                assert(before[r as int] > block);
                if r < before.len() - 1 {
                    assert(before[r as int] < before[before.len() - 1]);
                }
            }
        }
        let mut blocks: Vec<u64> = Vec::new();
        core::mem::swap(&mut self.blocks, &mut blocks);
        blocks.insert(r, block);
        self.blocks = blocks;
        true
    }
}

/// The block of the most recent change at or before `block_number`, if the
/// entity changed by then.
pub fn recent_change_from_block(block_number: u64, block_list: &BlockList) -> (r: Option<u64>)
    ensures
        r == most_recent_change(block_list@, block_number),
        match r {
            Some(b) => block_list@.contains(b) && b <= block_number && forall|i: int|
                0 <= i < block_list@.len() && block_list@[i] <= block_number ==> block_list@[i]
                    <= b,
            None => forall|i: int| 0 <= i < block_list@.len() ==> block_list@[i] > block_number,
        },
{
    proof {
        use_type_invariant(block_list);
        lemma_count_bounded(block_list@, block_number);
        lemma_most_recent_change(block_list@, block_number);
    }
    let rank = block_list.rank(block_number);
    if rank == 0 {
        None
    } else {
        block_list.select(rank - 1)
    }
}

} // verus!
