//! What holds of reads and writes of the state tables together.

use vstd::prelude::*;
use crate::dup::{
    exact_row, first_dup_from, lemma_seek_finds_exact, lemma_seek_misses, unique_subkey,
};
use crate::felt::{ClassHash, ContractAddress, Nonce, StorageKey, StorageValue};
use crate::history::{
    change_as_of, history_after, lemma_change_is_read_back, lemma_change_keeps_others,
    lemma_change_keeps_past, lemma_read_exists, lemma_read_unique,
    lemma_reads_differ_across_change, list_after, log_wf, MissingChange,
};
use crate::key::TableKey;
use crate::models::{
    ContractClassChange, ContractNonceChange, ContractStorageEntry, ContractStorageKey,
    StorageEntry,
};
use crate::state::{
    appendable, class_hash_outcome, nonce_outcome, slot_value, storage_outcome, storage_set,
    ProviderError, ProviderResult, StateDb,
};

verus! {

/// Two states that hold the same are consistent together and read alike.
pub proof fn law_same_state_reads_alike(
    a: StateDb,
    b: StateDb,
    address: ContractAddress,
    storage_key: StorageKey,
    block: u64,
    nonce: ProviderResult<Option<Nonce>>,
    class_hash: ProviderResult<Option<ClassHash>>,
    value: ProviderResult<Option<StorageValue>>,
    latest: Option<StorageValue>,
)
    requires
        a.same_state(b),
    ensures
        a.wf() <==> b.wf(),
        a.nonce_as_of(address, block, nonce) <==> b.nonce_as_of(address, block, nonce),
        a.class_hash_as_of(address, block, class_hash) <==> b.class_hash_as_of(
            address,
            block,
            class_hash,
        ),
        a.storage_as_of(
            ContractStorageKey { contract_address: address, key: storage_key },
            block,
            value,
        ) <==> b.storage_as_of(
            ContractStorageKey { contract_address: address, key: storage_key },
            block,
            value,
        ),
        a.latest_storage(address, storage_key, latest) <==> b.latest_storage(
            address,
            storage_key,
            latest,
        ),
        a.contract_untouched(address) <==> b.contract_untouched(address),
{
    let key = ContractStorageKey { contract_address: address, key: storage_key };
    assert(a.nonce_list(address) == b.nonce_list(address));
    assert(a.class_list(address) == b.class_list(address));
    assert(a.storage_list(key) == b.storage_list(key));
    if a.wf() {
        assert forall|x: ContractAddress| #[trigger]
            log_wf(b.nonce_list(x), b.nonce_change_history@, x) by {
            assert(a.nonce_list(x) == b.nonce_list(x));
            assert(log_wf(a.nonce_list(x), a.nonce_change_history@, x));
        }
        assert forall|x: ContractAddress| #[trigger]
            log_wf(b.class_list(x), b.class_change_history@, x) by {
            assert(a.class_list(x) == b.class_list(x));
            assert(log_wf(a.class_list(x), a.class_change_history@, x));
        }
        assert forall|k: ContractStorageKey| #[trigger]
            log_wf(b.storage_list(k), b.storage_change_history@, k) by {
            assert(a.storage_list(k) == b.storage_list(k));
            assert(log_wf(a.storage_list(k), a.storage_change_history@, k));
        }
        assert forall|x: ContractAddress, k: StorageKey| #[trigger]
            unique_subkey(b.contract_storage@, x, k) by {
            assert(unique_subkey(a.contract_storage@, x, k));
        }
    }
    if b.wf() {
        assert forall|x: ContractAddress| #[trigger]
            log_wf(a.nonce_list(x), a.nonce_change_history@, x) by {
            assert(a.nonce_list(x) == b.nonce_list(x));
            assert(log_wf(b.nonce_list(x), b.nonce_change_history@, x));
        }
        assert forall|x: ContractAddress| #[trigger]
            log_wf(a.class_list(x), a.class_change_history@, x) by {
            assert(a.class_list(x) == b.class_list(x));
            assert(log_wf(b.class_list(x), b.class_change_history@, x));
        }
        assert forall|k: ContractStorageKey| #[trigger]
            log_wf(a.storage_list(k), a.storage_change_history@, k) by {
            assert(a.storage_list(k) == b.storage_list(k));
            assert(log_wf(b.storage_list(k), b.storage_change_history@, k));
        }
        assert forall|x: ContractAddress, k: StorageKey| #[trigger]
            unique_subkey(a.contract_storage@, x, k) by {
            assert(unique_subkey(b.contract_storage@, x, k));
        }
    }
}

/// A nonce read as of a block has one result only.
pub proof fn law_nonce_read_unique(
    db: StateDb,
    address: ContractAddress,
    block: u64,
    r1: ProviderResult<Option<Nonce>>,
    r2: ProviderResult<Option<Nonce>>,
)
    requires
        db.nonce_as_of(address, block, r1),
        db.nonce_as_of(address, block, r2),
    ensures
        r1 == r2,
{
    let c1 = choose|c: Result<Option<ContractNonceChange>, MissingChange>| #[trigger]
        change_as_of(db.nonce_list(address), db.nonce_change_history@, address, block, c) && r1
            == nonce_outcome(address, c);
    let c2 = choose|c: Result<Option<ContractNonceChange>, MissingChange>| #[trigger]
        change_as_of(db.nonce_list(address), db.nonce_change_history@, address, block, c) && r2
            == nonce_outcome(address, c);
    lemma_read_unique(db.nonce_list(address), db.nonce_change_history@, address, block, c1, c2);
}

/// A class hash read as of a block has one result only.
pub proof fn law_class_hash_read_unique(
    db: StateDb,
    address: ContractAddress,
    block: u64,
    r1: ProviderResult<Option<ClassHash>>,
    r2: ProviderResult<Option<ClassHash>>,
)
    requires
        db.class_hash_as_of(address, block, r1),
        db.class_hash_as_of(address, block, r2),
    ensures
        r1 == r2,
{
    let c1 = choose|c: Result<Option<ContractClassChange>, MissingChange>| #[trigger]
        change_as_of(db.class_list(address), db.class_change_history@, address, block, c) && r1
            == class_hash_outcome(address, c);
    let c2 = choose|c: Result<Option<ContractClassChange>, MissingChange>| #[trigger]
        change_as_of(db.class_list(address), db.class_change_history@, address, block, c) && r2
            == class_hash_outcome(address, c);
    lemma_read_unique(db.class_list(address), db.class_change_history@, address, block, c1, c2);
}

/// A storage read as of a block has one result only.
pub proof fn law_storage_read_unique(
    db: StateDb,
    key: ContractStorageKey,
    block: u64,
    r1: ProviderResult<Option<StorageValue>>,
    r2: ProviderResult<Option<StorageValue>>,
)
    requires
        db.storage_as_of(key, block, r1),
        db.storage_as_of(key, block, r2),
    ensures
        r1 == r2,
{
    let c1 = choose|c: Result<Option<ContractStorageEntry>, MissingChange>| #[trigger]
        change_as_of(db.storage_list(key), db.storage_change_history@, key, block, c) && r1
            == storage_outcome(key, c);
    let c2 = choose|c: Result<Option<ContractStorageEntry>, MissingChange>| #[trigger]
        change_as_of(db.storage_list(key), db.storage_change_history@, key, block, c) && r2
            == storage_outcome(key, c);
    lemma_read_unique(db.storage_list(key), db.storage_change_history@, key, block, c1, c2);
}

/// In a consistent state no read as of a block fails.
pub proof fn law_consistent_reads_succeed(
    db: StateDb,
    address: ContractAddress,
    storage_key: StorageKey,
    block: u64,
    nonce: ProviderResult<Option<Nonce>>,
    class_hash: ProviderResult<Option<ClassHash>>,
    value: ProviderResult<Option<StorageValue>>,
)
    requires
        db.wf(),
        db.nonce_as_of(address, block, nonce),
        db.class_hash_as_of(address, block, class_hash),
        db.storage_as_of(
            ContractStorageKey { contract_address: address, key: storage_key },
            block,
            value,
        ),
    ensures
        nonce is Ok,
        class_hash is Ok,
        value is Ok,
{
    let key = ContractStorageKey { contract_address: address, key: storage_key };
    assert(log_wf(db.nonce_list(address), db.nonce_change_history@, address));
    assert(log_wf(db.class_list(address), db.class_change_history@, address));
    assert(log_wf(db.storage_list(key), db.storage_change_history@, key));
    let n = lemma_read_exists(db.nonce_list(address), db.nonce_change_history@, address, block);
    law_nonce_read_unique(db, address, block, nonce, nonce_outcome(address, n));
    let c = lemma_read_exists(db.class_list(address), db.class_change_history@, address, block);
    law_class_hash_read_unique(db, address, block, class_hash, class_hash_outcome(address, c));
    let s = lemma_read_exists(db.storage_list(key), db.storage_change_history@, key, block);
    law_storage_read_unique(db, key, block, value, storage_outcome(key, s));
}

/// Boundary: a contract that was never written has no nonce and no class
/// as of any block.
pub proof fn law_untouched_contract_reads_nothing(
    db: StateDb,
    address: ContractAddress,
    block: u64,
    nonce: ProviderResult<Option<Nonce>>,
    class_hash: ProviderResult<Option<ClassHash>>,
)
    requires
        db.contract_untouched(address),
    ensures
        db.nonce_as_of(address, block, nonce) <==> nonce == Ok::<Option<Nonce>, ProviderError>(None),
        db.class_hash_as_of(address, block, class_hash) <==> class_hash == Ok::<
            Option<ClassHash>,
            ProviderError,
        >(None),
{
    assert(db.nonce_list(address) =~= Seq::<u64>::empty());
    assert(db.class_list(address) =~= Seq::<u64>::empty());
    if nonce == Ok::<Option<Nonce>, ProviderError>(None) {
        assert(change_as_of(
            db.nonce_list(address),
            db.nonce_change_history@,
            address,
            block,
            Ok(None),
        ));
    }
    if class_hash == Ok::<Option<ClassHash>, ProviderError>(None) {
        assert(change_as_of(
            db.class_list(address),
            db.class_change_history@,
            address,
            block,
            Ok(None),
        ));
    }
}

/// Boundary: a storage slot that was never written has no value, latest
/// or as of any block.
pub proof fn law_untouched_slot_reads_nothing(
    db: StateDb,
    key: ContractStorageKey,
    block: u64,
    value: ProviderResult<Option<StorageValue>>,
    latest: Option<StorageValue>,
)
    requires
        db.slot_untouched(key),
    ensures
        db.storage_as_of(key, block, value) <==> value == Ok::<Option<StorageValue>, ProviderError>(
            None,
        ),
        db.latest_storage(key.contract_address, key.key, latest) ==> latest is None,
{
    assert(db.storage_list(key) =~= Seq::<u64>::empty());
    if value == Ok::<Option<StorageValue>, ProviderError>(None) {
        assert(change_as_of(
            db.storage_list(key),
            db.storage_change_history@,
            key,
            block,
            Ok(None),
        ));
    }
    if db.latest_storage(key.contract_address, key.key, latest) {
        let found = choose|found: Option<StorageEntry>| #[trigger]
            first_dup_from(db.contract_storage@, key.contract_address, key.key.position(), found)
                && latest == slot_value(found, key.key);
        lemma_seek_misses(db.contract_storage@, key.contract_address, key.key, found);
    }
}

/// A write to one contract leaves every other contract that was never
/// written as it was, whichever of the contract's nonce, class or storage
/// was written.
pub proof fn law_untouched_contract_stays(
    pre: StateDb,
    post: StateDb,
    block: u64,
    written: ContractAddress,
    other: ContractAddress,
    nonce: Nonce,
    class_hash: ClassHash,
    storage_key: StorageKey,
    value: StorageValue,
)
    requires
        pre.contract_untouched(other),
        other != written,
        pre.nonce_recorded(post, block, written, nonce) || pre.class_recorded(
            post,
            block,
            written,
            class_hash,
        ) || pre.storage_recorded(
            post,
            block,
            ContractStorageKey { contract_address: written, key: storage_key },
            value,
        ),
    ensures
        post.contract_untouched(other),
{
    if pre.nonce_recorded(post, block, written, nonce) {
        assert(post.nonce_list(other) == pre.nonce_list(other));
        assert(post.class_list(other) == pre.class_list(other));
    } else if pre.class_recorded(post, block, written, class_hash) {
        assert(post.nonce_list(other) == pre.nonce_list(other));
        assert(post.class_list(other) == pre.class_list(other));
    }
}

/// A write of one storage slot leaves every other slot that was never
/// written as it was, and so does a write of a nonce or a class.
pub proof fn law_untouched_slot_stays(
    pre: StateDb,
    post: StateDb,
    block: u64,
    written: ContractStorageKey,
    other: ContractStorageKey,
    nonce: Nonce,
    class_hash: ClassHash,
    value: StorageValue,
)
    requires
        pre.slot_untouched(other),
        other != written,
        pre.nonce_recorded(post, block, written.contract_address, nonce) || pre.class_recorded(
            post,
            block,
            written.contract_address,
            class_hash,
        ) || pre.storage_recorded(post, block, written, value),
    ensures
        post.slot_untouched(other),
{
    if pre.storage_recorded(post, block, written, value) {
        assert(post.storage_list(other) == pre.storage_list(other));
        let latest = pre.contract_storage@;
        assert forall|e: StorageEntry| !#[trigger] exact_row(
            post.contract_storage@,
            other.contract_address,
            other.key,
            e,
        ) by {
            if exact_row(post.contract_storage@, other.contract_address, other.key, e) {
                assert(latest.contains((other.contract_address, e)));
                assert(exact_row(latest, other.contract_address, other.key, e));
            }
        }
    }
}

/// Round trip: after a contract's nonce changed in a block, a consistent
/// state is still consistent and the nonce as of that block, and as of
/// every later one, is the nonce that was written, and so is the latest
/// nonce.
pub proof fn law_nonce_round_trip(
    pre: StateDb,
    post: StateDb,
    block: u64,
    address: ContractAddress,
    nonce: Nonce,
    at: u64,
)
    requires
        pre.wf(),
        appendable(pre.nonce_list(address), block),
        pre.nonce_recorded(post, block, address, nonce),
        at >= block,
    ensures
        post.wf(),
        post.nonce_as_of(address, at, Ok(Some(nonce))),
        post.contract_info@.contains_key(address),
        post.contract_info@[address].nonce == nonce,
{
    let value = ContractNonceChange { contract_address: address, nonce };
    let list = pre.nonce_list(address);
    let history = pre.nonce_change_history@;
    assert(log_wf(list, history, address));
    assert(unique_subkey(history, block, address));
    lemma_change_is_read_back(list, history, block, value, at);
    assert(post.nonce_list(address) == list_after(list, block));
    assert(post.nonce_change_history@ == history_after(history, block, value));
    assert(change_as_of(
        post.nonce_list(address),
        post.nonce_change_history@,
        address,
        at,
        Ok(Some(value)),
    ));
    assert forall|a: ContractAddress| #[trigger]
        log_wf(post.nonce_list(a), post.nonce_change_history@, a) by {
        if a != address {
            assert(post.nonce_list(a) == pre.nonce_list(a));
            assert(log_wf(pre.nonce_list(a), history, a));
            lemma_change_keeps_others(pre.nonce_list(a), history, a, block, value, at, Ok(None));
        }
    }
    assert forall|a: ContractAddress| #[trigger]
        log_wf(post.class_list(a), post.class_change_history@, a) by {
        assert(post.class_list(a) == pre.class_list(a));
        assert(log_wf(pre.class_list(a), pre.class_change_history@, a));
    }
    assert forall|k: ContractStorageKey| #[trigger]
        log_wf(post.storage_list(k), post.storage_change_history@, k) by {
        assert(log_wf(pre.storage_list(k), pre.storage_change_history@, k));
    }
    assert forall|a: ContractAddress, k: StorageKey| #[trigger]
        unique_subkey(post.contract_storage@, a, k) by {
        assert(unique_subkey(pre.contract_storage@, a, k));
    }
}

/// A change of a contract's nonce is seen from its block on and not
/// before: where the nonce as of an earlier block, after which nothing but
/// this change happened to the contract's nonce, was another one, the
/// reads as of that block and as of any block from the change on differ.
pub proof fn law_nonce_change_visible(
    pre: StateDb,
    post: StateDb,
    block: u64,
    address: ContractAddress,
    nonce: Nonce,
    before: u64,
    after: u64,
    r_before: ProviderResult<Option<Nonce>>,
    r_after: ProviderResult<Option<Nonce>>,
)
    requires
        pre.wf(),
        appendable(pre.nonce_list(address), before),
        before < block <= after,
        pre.nonce_recorded(post, block, address, nonce),
        pre.nonce_as_of(address, before, r_before),
        r_before != Ok::<Option<Nonce>, ProviderError>(Some(nonce)),
        post.nonce_as_of(address, after, r_after),
    ensures
        post.nonce_as_of(address, before, r_before),
        r_after == Ok::<Option<Nonce>, ProviderError>(Some(nonce)),
        r_before != r_after,
{
    let value = ContractNonceChange { contract_address: address, nonce };
    let list = pre.nonce_list(address);
    let history = pre.nonce_change_history@;
    assert(log_wf(list, history, address));
    assert(unique_subkey(history, block, address));
    let c = choose|c: Result<Option<ContractNonceChange>, MissingChange>| #[trigger]
        change_as_of(list, history, address, before, c) && r_before == nonce_outcome(address, c);
    lemma_change_keeps_past(list, history, block, value, before, c);
    assert(post.nonce_list(address) == list_after(list, block));
    assert(post.nonce_change_history@ == history_after(history, block, value));
    assert(change_as_of(post.nonce_list(address), post.nonce_change_history@, address, before, c));
    law_nonce_round_trip(pre, post, block, address, nonce, after);
    law_nonce_read_unique(post, address, after, r_after, Ok(Some(nonce)));
}

/// A change of one contract's nonce leaves the nonce of every other
/// contract as of every block as it was.
pub proof fn law_nonce_change_keeps_others(
    pre: StateDb,
    post: StateDb,
    block: u64,
    address: ContractAddress,
    nonce: Nonce,
    other: ContractAddress,
    at: u64,
    r: ProviderResult<Option<Nonce>>,
)
    requires
        pre.wf(),
        pre.nonce_recorded(post, block, address, nonce),
        other != address,
    ensures
        post.nonce_as_of(other, at, r) <==> pre.nonce_as_of(other, at, r),
{
    let value = ContractNonceChange { contract_address: address, nonce };
    let list = pre.nonce_list(other);
    let history = pre.nonce_change_history@;
    assert(log_wf(pre.nonce_list(address), history, address));
    assert(unique_subkey(history, block, address));
    assert(log_wf(list, history, other));
    assert(post.nonce_list(other) == list);
    assert(post.nonce_change_history@ == history_after(history, block, value));
    if post.nonce_as_of(other, at, r) {
        let c = choose|c: Result<Option<ContractNonceChange>, MissingChange>| #[trigger]
            change_as_of(post.nonce_list(other), post.nonce_change_history@, other, at, c) && r
                == nonce_outcome(other, c);
        lemma_change_keeps_others(list, history, other, block, value, at, c);
    }
    if pre.nonce_as_of(other, at, r) {
        let c = choose|c: Result<Option<ContractNonceChange>, MissingChange>| #[trigger]
            change_as_of(list, history, other, at, c) && r == nonce_outcome(other, c);
        lemma_change_keeps_others(list, history, other, block, value, at, c);
        assert(change_as_of(post.nonce_list(other), post.nonce_change_history@, other, at, c));
    }
}

/// Round trip: after a contract's class changed in a block, a consistent
/// state is still consistent and the class hash as of that block, and as
/// of every later one, is the one that was written, and so is the latest
/// class hash.
pub proof fn law_class_round_trip(
    pre: StateDb,
    post: StateDb,
    block: u64,
    address: ContractAddress,
    class_hash: ClassHash,
    at: u64,
)
    requires
        pre.wf(),
        appendable(pre.class_list(address), block),
        pre.class_recorded(post, block, address, class_hash),
        at >= block,
    ensures
        post.wf(),
        post.class_hash_as_of(address, at, Ok(Some(class_hash))),
        post.contract_info@.contains_key(address),
        post.contract_info@[address].class_hash == class_hash,
{
    let value = ContractClassChange { contract_address: address, class_hash };
    let list = pre.class_list(address);
    let history = pre.class_change_history@;
    assert(log_wf(list, history, address));
    assert(unique_subkey(history, block, address));
    lemma_change_is_read_back(list, history, block, value, at);
    assert(post.class_list(address) == list_after(list, block));
    assert(post.class_change_history@ == history_after(history, block, value));
    assert(change_as_of(
        post.class_list(address),
        post.class_change_history@,
        address,
        at,
        Ok(Some(value)),
    ));
    assert forall|a: ContractAddress| #[trigger]
        log_wf(post.class_list(a), post.class_change_history@, a) by {
        if a != address {
            assert(post.class_list(a) == pre.class_list(a));
            assert(log_wf(pre.class_list(a), history, a));
            lemma_change_keeps_others(pre.class_list(a), history, a, block, value, at, Ok(None));
        }
    }
    assert forall|a: ContractAddress| #[trigger]
        log_wf(post.nonce_list(a), post.nonce_change_history@, a) by {
        assert(post.nonce_list(a) == pre.nonce_list(a));
        assert(log_wf(pre.nonce_list(a), pre.nonce_change_history@, a));
    }
    assert forall|k: ContractStorageKey| #[trigger]
        log_wf(post.storage_list(k), post.storage_change_history@, k) by {
        assert(log_wf(pre.storage_list(k), pre.storage_change_history@, k));
    }
    assert forall|a: ContractAddress, k: StorageKey| #[trigger]
        unique_subkey(post.contract_storage@, a, k) by {
        assert(unique_subkey(pre.contract_storage@, a, k));
    }
}

/// A change of a contract's class is seen from its block on and not
/// before.
pub proof fn law_class_change_visible(
    pre: StateDb,
    post: StateDb,
    block: u64,
    address: ContractAddress,
    class_hash: ClassHash,
    before: u64,
    after: u64,
    r_before: ProviderResult<Option<ClassHash>>,
    r_after: ProviderResult<Option<ClassHash>>,
)
    requires
        pre.wf(),
        appendable(pre.class_list(address), before),
        before < block <= after,
        pre.class_recorded(post, block, address, class_hash),
        pre.class_hash_as_of(address, before, r_before),
        r_before != Ok::<Option<ClassHash>, ProviderError>(Some(class_hash)),
        post.class_hash_as_of(address, after, r_after),
    ensures
        post.class_hash_as_of(address, before, r_before),
        r_after == Ok::<Option<ClassHash>, ProviderError>(Some(class_hash)),
        r_before != r_after,
{
    let value = ContractClassChange { contract_address: address, class_hash };
    let list = pre.class_list(address);
    let history = pre.class_change_history@;
    assert(log_wf(list, history, address));
    assert(unique_subkey(history, block, address));
    let c = choose|c: Result<Option<ContractClassChange>, MissingChange>| #[trigger]
        change_as_of(list, history, address, before, c) && r_before == class_hash_outcome(
            address,
            c,
        );
    lemma_change_keeps_past(list, history, block, value, before, c);
    assert(post.class_list(address) == list_after(list, block));
    assert(post.class_change_history@ == history_after(history, block, value));
    assert(change_as_of(post.class_list(address), post.class_change_history@, address, before, c));
    law_class_round_trip(pre, post, block, address, class_hash, after);
    law_class_hash_read_unique(post, address, after, r_after, Ok(Some(class_hash)));
}

/// Round trip: after a storage slot changed in a block, a consistent state
/// is still consistent, the slot's value as of that block, and as of every
/// later one, is the value that was written, and so is its latest value.
pub proof fn law_storage_round_trip(
    pre: StateDb,
    post: StateDb,
    block: u64,
    key: ContractStorageKey,
    value: StorageValue,
    at: u64,
)
    requires
        pre.wf(),
        appendable(pre.storage_list(key), block),
        pre.storage_recorded(post, block, key, value),
        at >= block,
    ensures
        post.wf(),
        post.storage_as_of(key, at, Ok(Some(value))),
        post.latest_storage(key.contract_address, key.key, Some(value)),
{
    let entry = ContractStorageEntry { key, value };
    let list = pre.storage_list(key);
    let history = pre.storage_change_history@;
    assert(log_wf(list, history, key));
    assert(unique_subkey(history, block, key));
    lemma_change_is_read_back(list, history, block, entry, at);
    assert(post.storage_list(key) == list_after(list, block));
    assert(post.storage_change_history@ == history_after(history, block, entry));
    assert(change_as_of(
        post.storage_list(key),
        post.storage_change_history@,
        key,
        at,
        Ok(Some(entry)),
    ));
    assert forall|k: ContractStorageKey| #[trigger]
        log_wf(post.storage_list(k), post.storage_change_history@, k) by {
        if k != key {
            assert(post.storage_list(k) == pre.storage_list(k));
            assert(log_wf(pre.storage_list(k), history, k));
            lemma_change_keeps_others(pre.storage_list(k), history, k, block, entry, at, Ok(None));
        }
    }
    assert forall|a: ContractAddress| #[trigger]
        log_wf(post.nonce_list(a), post.nonce_change_history@, a) by {
        assert(log_wf(pre.nonce_list(a), pre.nonce_change_history@, a));
    }
    assert forall|a: ContractAddress| #[trigger]
        log_wf(post.class_list(a), post.class_change_history@, a) by {
        assert(log_wf(pre.class_list(a), pre.class_change_history@, a));
    }
    let slot = StorageEntry { key: key.key, value };
    let latest = pre.contract_storage@;
    assert(unique_subkey(latest, key.contract_address, key.key));
    assert forall|a: ContractAddress, k: StorageKey| #[trigger]
        unique_subkey(post.contract_storage@, a, k) by {
        assert(unique_subkey(latest, a, k));
        assert forall|e1: StorageEntry, e2: StorageEntry|
            #![trigger post.contract_storage@.contains((a, e1)), post.contract_storage@.contains((a, e2))]
            exact_row(post.contract_storage@, a, k, e1) && exact_row(
                post.contract_storage@,
                a,
                k,
                e2,
            ) implies e1 == e2 by {
            if a == key.contract_address && k == key.key {
            } else {
                assert(latest.contains((a, e1)));
                assert(latest.contains((a, e2)));
                assert(exact_row(latest, a, k, e1) && exact_row(latest, a, k, e2));
            }
        }
    }
    assert(exact_row(post.contract_storage@, key.contract_address, key.key, slot));
    lemma_seek_finds_exact(
        post.contract_storage@,
        key.contract_address,
        key.key,
        slot,
    );
    assert(slot_value(Some(slot), key.key) == Some(value));
}

/// A change of a storage slot is seen from its block on and not before.
pub proof fn law_storage_change_visible(
    pre: StateDb,
    post: StateDb,
    block: u64,
    key: ContractStorageKey,
    value: StorageValue,
    before: u64,
    after: u64,
    r_before: ProviderResult<Option<StorageValue>>,
    r_after: ProviderResult<Option<StorageValue>>,
)
    requires
        pre.wf(),
        appendable(pre.storage_list(key), before),
        before < block <= after,
        pre.storage_recorded(post, block, key, value),
        pre.storage_as_of(key, before, r_before),
        r_before != Ok::<Option<StorageValue>, ProviderError>(Some(value)),
        post.storage_as_of(key, after, r_after),
    ensures
        post.storage_as_of(key, before, r_before),
        r_after == Ok::<Option<StorageValue>, ProviderError>(Some(value)),
        r_before != r_after,
{
    let entry = ContractStorageEntry { key, value };
    let list = pre.storage_list(key);
    let history = pre.storage_change_history@;
    assert(log_wf(list, history, key));
    assert(unique_subkey(history, block, key));
    let c = choose|c: Result<Option<ContractStorageEntry>, MissingChange>| #[trigger]
        change_as_of(list, history, key, before, c) && r_before == storage_outcome(key, c);
    lemma_change_keeps_past(list, history, block, entry, before, c);
    assert(post.storage_list(key) == list_after(list, block));
    assert(post.storage_change_history@ == history_after(history, block, entry));
    assert(change_as_of(post.storage_list(key), post.storage_change_history@, key, before, c));
    law_storage_round_trip(pre, post, block, key, value, after);
    law_storage_read_unique(post, key, after, r_after, Ok(Some(value)));
}


/// In a consistent state, between two blocks with one change of a
/// contract's nonce after the first and at or before the second, the
/// nonce as of the two blocks differs wherever the change altered it.
pub proof fn law_nonce_differs_across_change(
    db: StateDb,
    address: ContractAddress,
    first: u64,
    second: u64,
    change: u64,
    nonce: Nonce,
    r_first: ProviderResult<Option<Nonce>>,
    r_second: ProviderResult<Option<Nonce>>,
)
    requires
        db.wf(),
        first < change <= second,
        db.nonce_list(address).contains(change),
        forall|x: u64|
            #[trigger] db.nonce_list(address).contains(x) && first < x <= second ==> x == change,
        db.nonce_change_history@.contains(
            (change, ContractNonceChange { contract_address: address, nonce }),
        ),
        db.nonce_as_of(address, first, r_first),
        db.nonce_as_of(address, second, r_second),
        r_first != Ok::<Option<Nonce>, ProviderError>(Some(nonce)),
    ensures
        r_second == Ok::<Option<Nonce>, ProviderError>(Some(nonce)),
        r_first != r_second,
{
    let row = ContractNonceChange { contract_address: address, nonce };
    let list = db.nonce_list(address);
    let history = db.nonce_change_history@;
    assert(log_wf(list, history, address));
    let c1 = choose|c: Result<Option<ContractNonceChange>, MissingChange>| #[trigger]
        change_as_of(list, history, address, first, c) && r_first == nonce_outcome(address, c);
    let c2 = choose|c: Result<Option<ContractNonceChange>, MissingChange>| #[trigger]
        change_as_of(list, history, address, second, c) && r_second == nonce_outcome(address, c);
    lemma_reads_differ_across_change(list, history, address, first, second, change, row, c1, c2);
}

/// In a consistent state, between two blocks with one change of a
/// contract's class after the first and at or before the second, the
/// class hash as of the two blocks differs wherever the change altered
/// it.
pub proof fn law_class_hash_differs_across_change(
    db: StateDb,
    address: ContractAddress,
    first: u64,
    second: u64,
    change: u64,
    class_hash: ClassHash,
    r_first: ProviderResult<Option<ClassHash>>,
    r_second: ProviderResult<Option<ClassHash>>,
)
    requires
        db.wf(),
        first < change <= second,
        db.class_list(address).contains(change),
        forall|x: u64|
            #[trigger] db.class_list(address).contains(x) && first < x <= second ==> x == change,
        db.class_change_history@.contains(
            (change, ContractClassChange { contract_address: address, class_hash }),
        ),
        db.class_hash_as_of(address, first, r_first),
        db.class_hash_as_of(address, second, r_second),
        r_first != Ok::<Option<ClassHash>, ProviderError>(Some(class_hash)),
    ensures
        r_second == Ok::<Option<ClassHash>, ProviderError>(Some(class_hash)),
        r_first != r_second,
{
    let row = ContractClassChange { contract_address: address, class_hash };
    let list = db.class_list(address);
    let history = db.class_change_history@;
    assert(log_wf(list, history, address));
    let c1 = choose|c: Result<Option<ContractClassChange>, MissingChange>| #[trigger]
        change_as_of(list, history, address, first, c) && r_first == class_hash_outcome(
            address,
            c,
        );
    let c2 = choose|c: Result<Option<ContractClassChange>, MissingChange>| #[trigger]
        change_as_of(list, history, address, second, c) && r_second == class_hash_outcome(
            address,
            c,
        );
    lemma_reads_differ_across_change(list, history, address, first, second, change, row, c1, c2);
}

/// In a consistent state, between two blocks with one change of a storage
/// slot after the first and at or before the second, the slot's value as
/// of the two blocks differs wherever the change altered it.
pub proof fn law_storage_differs_across_change(
    db: StateDb,
    key: ContractStorageKey,
    first: u64,
    second: u64,
    change: u64,
    value: StorageValue,
    r_first: ProviderResult<Option<StorageValue>>,
    r_second: ProviderResult<Option<StorageValue>>,
)
    requires
        db.wf(),
        first < change <= second,
        db.storage_list(key).contains(change),
        forall|x: u64|
            #[trigger] db.storage_list(key).contains(x) && first < x <= second ==> x == change,
        db.storage_change_history@.contains((change, ContractStorageEntry { key, value })),
        db.storage_as_of(key, first, r_first),
        db.storage_as_of(key, second, r_second),
        r_first != Ok::<Option<StorageValue>, ProviderError>(Some(value)),
    ensures
        r_second == Ok::<Option<StorageValue>, ProviderError>(Some(value)),
        r_first != r_second,
{
    let row = ContractStorageEntry { key, value };
    let list = db.storage_list(key);
    let history = db.storage_change_history@;
    assert(log_wf(list, history, key));
    let c1 = choose|c: Result<Option<ContractStorageEntry>, MissingChange>| #[trigger]
        change_as_of(list, history, key, first, c) && r_first == storage_outcome(key, c);
    let c2 = choose|c: Result<Option<ContractStorageEntry>, MissingChange>| #[trigger]
        change_as_of(list, history, key, second, c) && r_second == storage_outcome(key, c);
    lemma_reads_differ_across_change(list, history, key, first, second, change, row, c1, c2);
}


/// Setting the latest value of a storage slot keeps a consistent state
/// consistent, and the slot's latest value is then the value that was
/// set.
pub proof fn law_set_storage_is_read_back(
    pre: StateDb,
    post: StateDb,
    address: ContractAddress,
    storage_key: StorageKey,
    value: StorageValue,
)
    requires
        pre.wf(),
        storage_set(
            pre.contract_storage@,
            post.contract_storage@,
            address,
            StorageEntry { key: storage_key, value },
        ),
        post == (StateDb { contract_storage: post.contract_storage, ..pre }),
    ensures
        post.wf(),
        post.latest_storage(address, storage_key, Some(value)),
{
    let slot = StorageEntry { key: storage_key, value };
    let latest = pre.contract_storage@;
    assert(unique_subkey(latest, address, storage_key));
    assert forall|a: ContractAddress| #[trigger]
        log_wf(post.nonce_list(a), post.nonce_change_history@, a) by {
        assert(log_wf(pre.nonce_list(a), pre.nonce_change_history@, a));
    }
    assert forall|a: ContractAddress| #[trigger]
        log_wf(post.class_list(a), post.class_change_history@, a) by {
        assert(log_wf(pre.class_list(a), pre.class_change_history@, a));
    }
    assert forall|k: ContractStorageKey| #[trigger]
        log_wf(post.storage_list(k), post.storage_change_history@, k) by {
        assert(log_wf(pre.storage_list(k), pre.storage_change_history@, k));
    }
    assert forall|a: ContractAddress, k: StorageKey| #[trigger]
        unique_subkey(post.contract_storage@, a, k) by {
        assert(unique_subkey(latest, a, k));
        assert forall|e1: StorageEntry, e2: StorageEntry|
            #![trigger post.contract_storage@.contains((a, e1)), post.contract_storage@.contains((a, e2))]
            exact_row(post.contract_storage@, a, k, e1) && exact_row(
                post.contract_storage@,
                a,
                k,
                e2,
            ) implies e1 == e2 by {
            if a == address && k == storage_key {
            } else {
                assert(latest.contains((a, e1)));
                assert(latest.contains((a, e2)));
                assert(exact_row(latest, a, k, e1) && exact_row(latest, a, k, e2));
            }
        }
    }
    assert(exact_row(post.contract_storage@, address, storage_key, slot));
    lemma_seek_finds_exact(post.contract_storage@, address, storage_key, slot);
    assert(slot_value(Some(slot), storage_key) == Some(value));
}

} // verus!
