//! The state tables and the two ways to read them: the latest state, and
//! the state as of a pinned block.

use vstd::prelude::*;
use crate::dup::{
    exact_of, exact_row, first_dup_from, lemma_replaced_unique, replaced, unique_subkey,
    without_subkey, DupTable, DupValue,
};
use crate::felt::{
    BlockNumber, ClassHash, CompiledClassHash, ContractAddress, Nonce, StorageKey, StorageValue,
};
use crate::history::{
    change_as_of, history_after, list_after, log_wf, read_change, record_change, MissingChange,
};
use crate::key::TableKey;
use crate::models::{
    ContractClass, ContractClassChange, ContractInfoChangeList, ContractNonceChange,
    ContractStorageEntry, ContractStorageKey, GenericContractInfo, StorageEntry,
};
use crate::list::{strictly_increasing, BlockList};
use crate::table::{same_contents, Stored, Table};
use crate::tables::Tables;
use crate::trie::{TrieBinding, TrieDbFactory, TrieKind, TrieSnapshot, UncommittedBlock};

verus! {

/// A read found the database inconsistent: a block is in an entity's block
/// list and the change history has no row for the entity under it.
#[derive(Debug, Clone, Copy, PartialEq, Eq, Structural)]
pub enum ProviderError {
    MissingContractNonceChangeEntry { block: BlockNumber, contract_address: ContractAddress },
    MissingContractClassChangeEntry { block: BlockNumber, contract_address: ContractAddress },
    MissingStorageChangeEntry {
        block: BlockNumber,
        contract_address: ContractAddress,
        storage_key: StorageKey,
    },
}

pub type ProviderResult<T> = Result<T, ProviderError>;

/// The tables that hold contract state: for each kind of entity the latest
/// value, the blocks at which it changed, and the value it was given in
/// each of them.
#[derive(Debug)]
pub struct StateDb {
    /// Latest nonce and class of each contract.
    pub contract_info: Table<ContractAddress, GenericContractInfo>,
    /// Latest storage slots of each contract, dup-sorted by storage key.
    pub contract_storage: DupTable<ContractAddress, StorageEntry>,
    /// The declared classes.
    pub classes: Table<ClassHash, ContractClass>,
    /// The compiled class hash of each declared class.
    pub compiled_class_hashes: Table<ClassHash, CompiledClassHash>,
    /// The block in which each class was declared.
    pub class_declaration_block: Table<ClassHash, BlockNumber>,
    /// The blocks at which each contract's class and nonce changed.
    pub contract_info_change_set: Table<ContractAddress, ContractInfoChangeList>,
    /// The nonce that each contract was given, by block.
    pub nonce_change_history: DupTable<BlockNumber, ContractNonceChange>,
    /// The class that each contract was given, by block.
    pub class_change_history: DupTable<BlockNumber, ContractClassChange>,
    /// The blocks at which each storage slot changed.
    pub storage_change_set: Table<ContractStorageKey, BlockList>,
    /// The value that each storage slot was given, by block.
    pub storage_change_history: DupTable<BlockNumber, ContractStorageEntry>,
}

/// The result of a nonce read, from what the change history gave.
pub open spec fn nonce_outcome(
    address: ContractAddress,
    change: Result<Option<ContractNonceChange>, MissingChange>,
) -> ProviderResult<Option<Nonce>> {
    match change {
        Ok(Some(entry)) => Ok(Some(entry.nonce)),
        Ok(None) => Ok(None),
        Err(missing) => Err(
            ProviderError::MissingContractNonceChangeEntry {
                block: missing.block,
                contract_address: address,
            },
        ),
    }
}

/// The result of a class hash read, from what the change history gave.
pub open spec fn class_hash_outcome(
    address: ContractAddress,
    change: Result<Option<ContractClassChange>, MissingChange>,
) -> ProviderResult<Option<ClassHash>> {
    match change {
        Ok(Some(entry)) => Ok(Some(entry.class_hash)),
        Ok(None) => Ok(None),
        Err(missing) => Err(
            ProviderError::MissingContractClassChangeEntry {
                block: missing.block,
                contract_address: address,
            },
        ),
    }
}

/// The result of a storage read, from what the change history gave.
pub open spec fn storage_outcome(
    key: ContractStorageKey,
    change: Result<Option<ContractStorageEntry>, MissingChange>,
) -> ProviderResult<Option<StorageValue>> {
    match change {
        Ok(Some(entry)) => Ok(Some(entry.value)),
        Ok(None) => Ok(None),
        Err(missing) => Err(
            ProviderError::MissingStorageChangeEntry {
                block: missing.block,
                contract_address: key.contract_address,
                storage_key: key.key,
            },
        ),
    }
}

/// The value of the storage slot that a seek from the slot's key found, if
/// it is that slot.
pub open spec fn slot_value(found: Option<StorageEntry>, key: StorageKey) -> Option<StorageValue> {
    match exact_of(found, key) {
        Some(entry) => Some(entry.value),
        None => None,
    }
}

impl StateDb {
    /// The blocks at which the contract's nonce changed.
    pub open spec fn nonce_list(&self, address: ContractAddress) -> Seq<u64> {
        if self.contract_info_change_set@.contains_key(address) {
            self.contract_info_change_set@[address].nonce_change_list@
        } else {
            Seq::empty()
        }
    }

    /// The blocks at which the contract's class changed.
    pub open spec fn class_list(&self, address: ContractAddress) -> Seq<u64> {
        if self.contract_info_change_set@.contains_key(address) {
            self.contract_info_change_set@[address].class_change_list@
        } else {
            Seq::empty()
        }
    }

    /// The blocks at which the storage slot changed.
    pub open spec fn storage_list(&self, key: ContractStorageKey) -> Seq<u64> {
        if self.storage_change_set@.contains_key(key) {
            self.storage_change_set@[key]@
        } else {
            Seq::empty()
        }
    }

    /// `r` is the contract's nonce as of `block`.
    pub open spec fn nonce_as_of(
        &self,
        address: ContractAddress,
        block: u64,
        r: ProviderResult<Option<Nonce>>,
    ) -> bool {
        exists|change: Result<Option<ContractNonceChange>, MissingChange>| #[trigger]
            change_as_of(
                self.nonce_list(address),
                self.nonce_change_history@,
                address,
                block,
                change,
            ) && r == nonce_outcome(address, change)
    }

    /// `r` is the hash of the contract's class as of `block`.
    pub open spec fn class_hash_as_of(
        &self,
        address: ContractAddress,
        block: u64,
        r: ProviderResult<Option<ClassHash>>,
    ) -> bool {
        exists|change: Result<Option<ContractClassChange>, MissingChange>| #[trigger]
            change_as_of(
                self.class_list(address),
                self.class_change_history@,
                address,
                block,
                change,
            ) && r == class_hash_outcome(address, change)
    }

    /// `r` is the value of the storage slot as of `block`.
    pub open spec fn storage_as_of(
        &self,
        key: ContractStorageKey,
        block: u64,
        r: ProviderResult<Option<StorageValue>>,
    ) -> bool {
        exists|change: Result<Option<ContractStorageEntry>, MissingChange>| #[trigger]
            change_as_of(
                self.storage_list(key),
                self.storage_change_history@,
                key,
                block,
                change,
            ) && r == storage_outcome(key, change)
    }

    /// `r` is the latest value of the storage slot.
    pub open spec fn latest_storage(
        &self,
        address: ContractAddress,
        key: StorageKey,
        r: Option<StorageValue>,
    ) -> bool {
        exists|found: Option<StorageEntry>| #[trigger]
            first_dup_from(self.contract_storage@, address, key.position(), found) && r
                == slot_value(found, key)
    }

    /// The contract was never written: it has no latest state and no
    /// change is listed for it.
    pub open spec fn contract_untouched(&self, address: ContractAddress) -> bool {
        &&& !self.contract_info@.contains_key(address)
        &&& self.nonce_list(address).len() == 0
        &&& self.class_list(address).len() == 0
    }

    /// The storage slot was never written: it has no latest value and no
    /// change is listed for it.
    pub open spec fn slot_untouched(&self, key: ContractStorageKey) -> bool {
        &&& self.storage_list(key).len() == 0
        &&& forall|e: StorageEntry|
            !#[trigger] exact_row(self.contract_storage@, key.contract_address, key.key, e)
    }

    /// The class was declared at or before `block`.
    pub open spec fn class_declared_by(&self, hash: ClassHash, block: u64) -> bool {
        self.class_declaration_block@.contains_key(hash) && self.class_declaration_block@[hash]
            <= block
    }

    /// The change tracking is consistent: for each entity the block list is
    /// in order, the change history has one row for the entity under each
    /// listed block, and each storage slot has one latest value at most.
    pub open spec fn wf(&self) -> bool {
        &&& forall|a: ContractAddress| #[trigger]
            log_wf(self.nonce_list(a), self.nonce_change_history@, a)
        &&& forall|a: ContractAddress| #[trigger]
            log_wf(self.class_list(a), self.class_change_history@, a)
        &&& forall|k: ContractStorageKey| #[trigger]
            log_wf(self.storage_list(k), self.storage_change_history@, k)
        &&& forall|a: ContractAddress, k: StorageKey| #[trigger]
            unique_subkey(self.contract_storage@, a, k)
    }

    /// The two states hold the same: table by table the same rows, with
    /// values of the same content.
    pub open spec fn same_state(&self, other: StateDb) -> bool {
        &&& self.contract_info@ == other.contract_info@
        &&& self.contract_storage@ == other.contract_storage@
        &&& same_contents(self.classes@, other.classes@)
        &&& self.compiled_class_hashes@ == other.compiled_class_hashes@
        &&& self.class_declaration_block@ == other.class_declaration_block@
        &&& forall|a: ContractAddress| #[trigger] self.nonce_list(a) == other.nonce_list(a)
        &&& forall|a: ContractAddress| #[trigger] self.class_list(a) == other.class_list(a)
        &&& self.nonce_change_history@ == other.nonce_change_history@
        &&& self.class_change_history@ == other.class_change_history@
        &&& forall|k: ContractStorageKey| #[trigger] self.storage_list(k) == other.storage_list(k)
        &&& self.storage_change_history@ == other.storage_change_history@
    }

    /// A second copy of the state.
    pub fn replica(&self) -> (copy: StateDb)
        ensures
            self.same_state(copy),
    {
        let copy = StateDb {
            contract_info: self.contract_info.replica(),
            contract_storage: self.contract_storage.replica(),
            classes: self.classes.replica(),
            compiled_class_hashes: self.compiled_class_hashes.replica(),
            class_declaration_block: self.class_declaration_block.replica(),
            contract_info_change_set: self.contract_info_change_set.replica(),
            nonce_change_history: self.nonce_change_history.replica(),
            class_change_history: self.class_change_history.replica(),
            storage_change_set: self.storage_change_set.replica(),
            storage_change_history: self.storage_change_history.replica(),
        };
        proof {
            assert(self.contract_info@ =~= copy.contract_info@);
            assert(self.compiled_class_hashes@ =~= copy.compiled_class_hashes@);
            assert(self.class_declaration_block@ =~= copy.class_declaration_block@);
            assert forall|a: ContractAddress| #[trigger] self.nonce_list(a) == copy.nonce_list(a) by {
                if self.contract_info_change_set@.contains_key(a) {
                    assert(self.contract_info_change_set@[a].content()
                        == copy.contract_info_change_set@[a].content());
                }
            }
            assert forall|a: ContractAddress| #[trigger] self.class_list(a) == copy.class_list(a) by {
                if self.contract_info_change_set@.contains_key(a) {
                    assert(self.contract_info_change_set@[a].content()
                        == copy.contract_info_change_set@[a].content());
                }
            }
            assert forall|k: ContractStorageKey| #[trigger]
                self.storage_list(k) == copy.storage_list(k) by {
                if self.storage_change_set@.contains_key(k) {
                    assert(self.storage_change_set@[k].content()
                        == copy.storage_change_set@[k].content());
                }
            }
        }
        copy
    }

    /// Each single-value table has the name that the registry gives it.
    pub open spec fn named_by_registry(&self) -> bool {
        &&& self.contract_info.label()@ == Tables::ContractInfo.label()
        &&& self.classes.label()@ == Tables::Classes.label()
        &&& self.compiled_class_hashes.label()@ == Tables::CompiledClassHashes.label()
        &&& self.class_declaration_block.label()@ == Tables::ClassDeclarationBlock.label()
        &&& self.contract_info_change_set.label()@ == Tables::ContractInfoChangeSet.label()
        &&& self.storage_change_set.label()@ == Tables::StorageChangeSet.label()
    }

    /// No table has a row.
    pub open spec fn no_rows(&self) -> bool {
        &&& self.contract_info.count() == 0
        &&& self.contract_storage.count() == 0
        &&& self.classes.count() == 0
        &&& self.compiled_class_hashes.count() == 0
        &&& self.class_declaration_block.count() == 0
        &&& self.contract_info_change_set.count() == 0
        &&& self.nonce_change_history.count() == 0
        &&& self.class_change_history.count() == 0
        &&& self.storage_change_set.count() == 0
        &&& self.storage_change_history.count() == 0
    }

    /// The empty tables, each single-value table under its name of the
    /// registry, which a refused write reports.
    pub fn new() -> (db: StateDb)
        ensures
            db.wf(),
            db.named_by_registry(),
            db.no_rows(),
            forall|a: ContractAddress| #[trigger] db.contract_untouched(a),
            forall|k: ContractStorageKey| #[trigger] db.slot_untouched(k),
            db.contract_info@ == Map::<ContractAddress, GenericContractInfo>::empty(),
            db.contract_storage@ == Set::<(ContractAddress, StorageEntry)>::empty(),
            db.classes@ == Map::<ClassHash, ContractClass>::empty(),
            db.compiled_class_hashes@ == Map::<ClassHash, CompiledClassHash>::empty(),
            db.class_declaration_block@ == Map::<ClassHash, BlockNumber>::empty(),
            db.contract_info_change_set@ == Map::<ContractAddress, ContractInfoChangeList>::empty(),
            db.nonce_change_history@ == Set::<(BlockNumber, ContractNonceChange)>::empty(),
            db.class_change_history@ == Set::<(BlockNumber, ContractClassChange)>::empty(),
            db.storage_change_set@ == Map::<ContractStorageKey, BlockList>::empty(),
            db.storage_change_history@ == Set::<(BlockNumber, ContractStorageEntry)>::empty(),
    {
        let db = StateDb {
            contract_info: Table::named(Tables::ContractInfo.name()),
            contract_storage: DupTable::new(),
            classes: Table::named(Tables::Classes.name()),
            compiled_class_hashes: Table::named(Tables::CompiledClassHashes.name()),
            class_declaration_block: Table::named(Tables::ClassDeclarationBlock.name()),
            contract_info_change_set: Table::named(Tables::ContractInfoChangeSet.name()),
            nonce_change_history: DupTable::new(),
            class_change_history: DupTable::new(),
            storage_change_set: Table::named(Tables::StorageChangeSet.name()),
            storage_change_history: DupTable::new(),
        };
        proof {
            assert forall|a: ContractAddress| #[trigger]
                log_wf(db.nonce_list(a), db.nonce_change_history@, a) by {
                assert(db.nonce_list(a) =~= Seq::<u64>::empty());
            }
            assert forall|a: ContractAddress| #[trigger]
                log_wf(db.class_list(a), db.class_change_history@, a) by {
                assert(db.class_list(a) =~= Seq::<u64>::empty());
            }
            assert forall|k: ContractStorageKey| #[trigger]
                log_wf(db.storage_list(k), db.storage_change_history@, k) by {
                assert(db.storage_list(k) =~= Seq::<u64>::empty());
            }
        }
        db
    }
}

/// A state provider that provides the latest states from the database.
#[derive(Debug)]
pub struct LatestStateProvider<'a>(pub &'a StateDb);

impl<'a> LatestStateProvider<'a> {
    pub fn new(tx: &'a StateDb) -> (provider: Self)
        ensures
            *provider.0 == *tx,
    {
        LatestStateProvider(tx)
    }

    /// The commitment trie of the given tree, bound to the latest state.
    pub fn trie(&self, kind: TrieKind) -> (trie: TrieBinding)
        ensures
            trie == (TrieBinding { snapshot: TrieSnapshot::Latest, kind }),
    {
        TrieBinding { snapshot: TrieSnapshot::Latest, kind }
    }

    /// The class declared under `hash`.
    pub fn class(&self, hash: ClassHash) -> (r: ProviderResult<Option<&'a ContractClass>>)
        ensures
            r is Ok,
            match r->Ok_0 {
                Some(class) => self.0.classes@.contains_key(hash) && *class
                    == self.0.classes@[hash],
                None => !self.0.classes@.contains_key(hash),
            },
    {
        Ok(self.0.classes.get(&hash))
    }

    /// The compiled class hash of the class declared under `hash`.
    pub fn compiled_class_hash_of_class_hash(&self, hash: ClassHash) -> (r: ProviderResult<
        Option<CompiledClassHash>,
    >)
        ensures
            r == Ok::<Option<CompiledClassHash>, ProviderError>(
                if self.0.compiled_class_hashes@.contains_key(hash) {
                    Some(self.0.compiled_class_hashes@[hash])
                } else {
                    None
                },
            ),
    {
        match self.0.compiled_class_hashes.get(&hash) {
            Some(compiled) => Ok(Some(*compiled)),
            None => Ok(None),
        }
    }

    /// The latest nonce of the contract.
    pub fn nonce(&self, address: ContractAddress) -> (r: ProviderResult<Option<Nonce>>)
        ensures
            r == Ok::<Option<Nonce>, ProviderError>(
                if self.0.contract_info@.contains_key(address) {
                    Some(self.0.contract_info@[address].nonce)
                } else {
                    None
                },
            ),
    {
        match self.0.contract_info.get(&address) {
            Some(info) => Ok(Some(info.nonce)),
            None => Ok(None),
        }
    }

    /// The hash of the contract's latest class.
    pub fn class_hash_of_contract(&self, address: ContractAddress) -> (r: ProviderResult<
        Option<ClassHash>,
    >)
        ensures
            r == Ok::<Option<ClassHash>, ProviderError>(
                if self.0.contract_info@.contains_key(address) {
                    Some(self.0.contract_info@[address].class_hash)
                } else {
                    None
                },
            ),
    {
        match self.0.contract_info.get(&address) {
            Some(info) => Ok(Some(info.class_hash)),
            None => Ok(None),
        }
    }

    /// The latest value of the contract's storage slot.
    pub fn storage(&self, address: ContractAddress, storage_key: StorageKey) -> (r: ProviderResult<
        Option<StorageValue>,
    >)
        ensures
            r is Ok,
            self.0.latest_storage(address, storage_key, r->Ok_0),
    {
        let entry = self.0.contract_storage.seek_by_key_subkey(&address, &storage_key);
        match entry {
            Some(entry) => {
                if entry.key.same_as(&storage_key) {
                    Ok(Some(entry.value))
                } else {
                    Ok(None)
                }
            },
            None => Ok(None),
        }
    }
}

/// A historical state provider: reads the state as of one block.
#[derive(Debug)]
pub struct HistoricalStateProvider<'a> {
    /// The tables that the provider reads, held for as long as it lives.
    tx: &'a StateDb,
    /// The block number of the state.
    block_number: BlockNumber,
}

impl<'a> HistoricalStateProvider<'a> {
    /// The tables that the provider reads.
    pub closed spec fn state(&self) -> StateDb {
        *self.tx
    }

    /// The block that the provider is pinned to.
    pub closed spec fn pinned(&self) -> BlockNumber {
        self.block_number
    }

    pub fn new(tx: &'a StateDb, block_number: BlockNumber) -> (provider: Self)
        ensures
            provider.state() == *tx,
            provider.pinned() == block_number,
    {
        HistoricalStateProvider { tx, block_number }
    }

    pub fn tx(&self) -> (tx: &'a StateDb)
        ensures
            *tx == self.state(),
    {
        self.tx
    }

    /// The block number this state provider is pinned to.
    pub fn block(&self) -> (block: BlockNumber)
        ensures
            block == self.pinned(),
    {
        self.block_number
    }

    /// The commitment trie of the given tree, bound to the state as of the
    /// pinned block. A pinned block that was never committed has no trie.
    pub fn trie(&self, factory: &TrieDbFactory, kind: TrieKind) -> (r: Result<
        TrieBinding,
        UncommittedBlock,
    >)
        ensures
            r == if factory.committed(self.pinned()) {
                Ok::<TrieBinding, UncommittedBlock>(
                    TrieBinding { snapshot: TrieSnapshot::Historical(self.pinned()), kind },
                )
            } else {
                Err::<TrieBinding, UncommittedBlock>(UncommittedBlock { block: self.pinned() })
            },
    {
        match factory.historical(self.block_number) {
            Ok(global) => Ok(TrieBinding { snapshot: global.snapshot, kind }),
            Err(e) => Err(e),
        }
    }

    /// Check if the class was declared at or before the pinned block number.
    fn is_class_declared_before_block(&self, hash: ClassHash) -> (r: ProviderResult<bool>)
        ensures
            r == Ok::<bool, ProviderError>(self.state().class_declared_by(hash, self.pinned())),
    {
        match self.tx.class_declaration_block.get(&hash) {
            Some(num) => Ok(*num <= self.block_number),
            None => Ok(false),
        }
    }

    /// The class declared under `hash`, if it was declared by the pinned
    /// block.
    pub fn class(&self, hash: ClassHash) -> (r: ProviderResult<Option<&'a ContractClass>>)
        ensures
            r is Ok,
            match r->Ok_0 {
                Some(class) => self.state().class_declared_by(hash, self.pinned())
                    && self.state().classes@.contains_key(hash) && *class
                    == self.state().classes@[hash],
                None => !(self.state().class_declared_by(hash, self.pinned())
                    && self.state().classes@.contains_key(hash)),
            },
    {
        match self.is_class_declared_before_block(hash) {
            Ok(true) => Ok(self.tx.classes.get(&hash)),
            Ok(false) => Ok(None),
            Err(e) => Err(e),
        }
    }

    /// The compiled class hash of the class declared under `hash`, if it
    /// was declared by the pinned block.
    pub fn compiled_class_hash_of_class_hash(&self, hash: ClassHash) -> (r: ProviderResult<
        Option<CompiledClassHash>,
    >)
        ensures
            r == Ok::<Option<CompiledClassHash>, ProviderError>(
                if self.state().class_declared_by(hash, self.pinned())
                    && self.state().compiled_class_hashes@.contains_key(hash) {
                    Some(self.state().compiled_class_hashes@[hash])
                } else {
                    None
                },
            ),
    {
        match self.is_class_declared_before_block(hash) {
            Ok(true) => match self.tx.compiled_class_hashes.get(&hash) {
                Some(compiled) => Ok(Some(*compiled)),
                None => Ok(None),
            },
            Ok(false) => Ok(None),
            Err(e) => Err(e),
        }
    }

    /// The contract's nonce as of the pinned block.
    pub fn nonce(&self, address: ContractAddress) -> (r: ProviderResult<Option<Nonce>>)
        ensures
            self.state().nonce_as_of(address, self.pinned(), r),
    {
        match self.tx.contract_info_change_set.get(&address) {
            Some(lists) => {
                let change = read_change(
                    &lists.nonce_change_list,
                    &self.tx.nonce_change_history,
                    &address,
                    self.block_number,
                );
                match change {
                    Ok(Some(entry)) => Ok(Some(entry.nonce)),
                    Ok(None) => Ok(None),
                    Err(missing) => Err(
                        ProviderError::MissingContractNonceChangeEntry {
                            block: missing.block,
                            contract_address: address,
                        },
                    ),
                }
            },
            None => {
                proof {
                    assert(change_as_of(
                        self.tx.nonce_list(address),
                        self.tx.nonce_change_history@,
                        address,
                        self.block_number,
                        Ok(None),
                    ));
                }
                Ok(None)
            },
        }
    }

    /// The hash of the contract's class as of the pinned block.
    pub fn class_hash_of_contract(&self, address: ContractAddress) -> (r: ProviderResult<
        Option<ClassHash>,
    >)
        ensures
            self.state().class_hash_as_of(address, self.pinned(), r),
    {
        match self.tx.contract_info_change_set.get(&address) {
            Some(lists) => {
                let change = read_change(
                    &lists.class_change_list,
                    &self.tx.class_change_history,
                    &address,
                    self.block_number,
                );
                match change {
                    Ok(Some(entry)) => Ok(Some(entry.class_hash)),
                    Ok(None) => Ok(None),
                    Err(missing) => Err(
                        ProviderError::MissingContractClassChangeEntry {
                            block: missing.block,
                            contract_address: address,
                        },
                    ),
                }
            },
            None => {
                proof {
                    assert(change_as_of(
                        self.tx.class_list(address),
                        self.tx.class_change_history@,
                        address,
                        self.block_number,
                        Ok(None),
                    ));
                }
                Ok(None)
            },
        }
    }

    /// The value of the contract's storage slot as of the pinned block.
    pub fn storage(&self, address: ContractAddress, storage_key: StorageKey) -> (r: ProviderResult<
        Option<StorageValue>,
    >)
        ensures
            self.state().storage_as_of(
                ContractStorageKey { contract_address: address, key: storage_key },
                self.pinned(),
                r,
            ),
    {
        let key = ContractStorageKey { contract_address: address, key: storage_key };
        match self.tx.storage_change_set.get(&key) {
            Some(list) => {
                let change = read_change(
                    list,
                    &self.tx.storage_change_history,
                    &key,
                    self.block_number,
                );
                match change {
                    Ok(Some(entry)) => Ok(Some(entry.value)),
                    Ok(None) => Ok(None),
                    Err(missing) => Err(
                        ProviderError::MissingStorageChangeEntry {
                            block: missing.block,
                            contract_address: address,
                            storage_key,
                        },
                    ),
                }
            },
            None => {
                proof {
                    assert(change_as_of(
                        self.tx.storage_list(key),
                        self.tx.storage_change_history@,
                        key,
                        self.block_number,
                        Ok(None),
                    ));
                }
                Ok(None)
            },
        }
    }
}


/// No block after `block` is in the list: a change in `block` keeps the
/// list in the order in which blocks are committed.
pub open spec fn appendable(list: Seq<u64>, block: u64) -> bool {
    list.len() == 0 || list.last() <= block
}

/// The list `post` is the list `pre` with `block` added.
pub open spec fn list_gained(pre: Seq<u64>, post: Seq<u64>, block: u64) -> bool {
    &&& strictly_increasing(post)
    &&& forall|x: u64| post.contains(x) <==> (pre.contains(x) || x == block)
    &&& appendable(pre, block) ==> post == list_after(pre, block)
}

/// The history table `post` is the table `pre` after the entity of
/// `value` was given `value` in `block`.
pub open spec fn history_gained<E: DupValue>(
    pre: Set<(u64, E)>,
    post: Set<(u64, E)>,
    block: u64,
    value: E,
) -> bool {
    &&& exists|found: Option<E>| #[trigger]
        first_dup_from(pre, block, value.subkey().position(), found) && post == replaced(
            pre,
            block,
            found,
            value,
        )
    &&& unique_subkey(pre, block, value.subkey()) ==> post == history_after(pre, block, value)
}

/// The latest contract table `post` is the table `pre` after the
/// contract's nonce was set.
pub open spec fn nonce_set(
    pre: Map<ContractAddress, GenericContractInfo>,
    post: Map<ContractAddress, GenericContractInfo>,
    address: ContractAddress,
    nonce: Nonce,
) -> bool {
    &&& post.dom() == pre.dom().insert(address)
    &&& post[address].nonce == nonce
    &&& if pre.contains_key(address) {
        post[address].class_hash == pre[address].class_hash
    } else {
        post[address].class_hash.value() == 0
    }
    &&& forall|a: ContractAddress| a != address && pre.contains_key(a) ==> #[trigger] post[a] == pre[a]
}

/// The latest contract table `post` is the table `pre` after the
/// contract's class was set.
pub open spec fn class_hash_set(
    pre: Map<ContractAddress, GenericContractInfo>,
    post: Map<ContractAddress, GenericContractInfo>,
    address: ContractAddress,
    class_hash: ClassHash,
) -> bool {
    &&& post.dom() == pre.dom().insert(address)
    &&& post[address].class_hash == class_hash
    &&& if pre.contains_key(address) {
        post[address].nonce == pre[address].nonce
    } else {
        post[address].nonce.value() == 0
    }
    &&& forall|a: ContractAddress| a != address && pre.contains_key(a) ==> #[trigger] post[a] == pre[a]
}

/// The latest storage table `post` is the table `pre` after the slot was
/// set.
pub open spec fn storage_set(
    pre: Set<(ContractAddress, StorageEntry)>,
    post: Set<(ContractAddress, StorageEntry)>,
    address: ContractAddress,
    entry: StorageEntry,
) -> bool {
    &&& exists|found: Option<StorageEntry>| #[trigger]
        first_dup_from(pre, address, entry.key.position(), found) && post == replaced(
            pre,
            address,
            found,
            entry,
        )
    &&& unique_subkey(pre, address, entry.key) ==> post == without_subkey(
        pre,
        address,
        entry.key,
    ).insert((address, entry))
}

impl StateDb {
    /// `post` is this state after the contract's nonce changed to `nonce`
    /// in `block`: the latest nonce is set, the block is in the contract's
    /// nonce list, and the nonce history holds the nonce under the block;
    /// the rest is as it was.
    pub open spec fn nonce_recorded(
        &self,
        post: StateDb,
        block: u64,
        address: ContractAddress,
        nonce: Nonce,
    ) -> bool {
        &&& history_gained(
            self.nonce_change_history@,
            post.nonce_change_history@,
            block,
            ContractNonceChange { contract_address: address, nonce },
        )
        &&& list_gained(self.nonce_list(address), post.nonce_list(address), block)
        &&& forall|a: ContractAddress| a != address ==> #[trigger] post.nonce_list(a) == self.nonce_list(a)
        &&& forall|a: ContractAddress| #[trigger] post.class_list(a) == self.class_list(a)
        &&& nonce_set(self.contract_info@, post.contract_info@, address, nonce)
        &&& post.contract_storage == self.contract_storage
        &&& post.classes == self.classes
        &&& post.compiled_class_hashes == self.compiled_class_hashes
        &&& post.class_declaration_block == self.class_declaration_block
        &&& post.class_change_history == self.class_change_history
        &&& post.storage_change_set == self.storage_change_set
        &&& post.storage_change_history == self.storage_change_history
    }

    /// `post` is this state after the contract's class changed to
    /// `class_hash` in `block`.
    pub open spec fn class_recorded(
        &self,
        post: StateDb,
        block: u64,
        address: ContractAddress,
        class_hash: ClassHash,
    ) -> bool {
        &&& history_gained(
            self.class_change_history@,
            post.class_change_history@,
            block,
            ContractClassChange { contract_address: address, class_hash },
        )
        &&& list_gained(self.class_list(address), post.class_list(address), block)
        &&& forall|a: ContractAddress| a != address ==> #[trigger] post.class_list(a) == self.class_list(a)
        &&& forall|a: ContractAddress| #[trigger] post.nonce_list(a) == self.nonce_list(a)
        &&& class_hash_set(self.contract_info@, post.contract_info@, address, class_hash)
        &&& post.contract_storage == self.contract_storage
        &&& post.classes == self.classes
        &&& post.compiled_class_hashes == self.compiled_class_hashes
        &&& post.class_declaration_block == self.class_declaration_block
        &&& post.nonce_change_history == self.nonce_change_history
        &&& post.storage_change_set == self.storage_change_set
        &&& post.storage_change_history == self.storage_change_history
    }

    /// `post` is this state after the storage slot changed to `value` in
    /// `block`.
    pub open spec fn storage_recorded(
        &self,
        post: StateDb,
        block: u64,
        key: ContractStorageKey,
        value: StorageValue,
    ) -> bool {
        &&& history_gained(
            self.storage_change_history@,
            post.storage_change_history@,
            block,
            ContractStorageEntry { key, value },
        )
        &&& list_gained(self.storage_list(key), post.storage_list(key), block)
        &&& forall|k: ContractStorageKey| k != key ==> #[trigger] post.storage_list(k) == self.storage_list(k)
        &&& storage_set(
            self.contract_storage@,
            post.contract_storage@,
            key.contract_address,
            StorageEntry { key: key.key, value },
        )
        &&& post.contract_info == self.contract_info
        &&& post.classes == self.classes
        &&& post.compiled_class_hashes == self.compiled_class_hashes
        &&& post.class_declaration_block == self.class_declaration_block
        &&& post.contract_info_change_set == self.contract_info_change_set
        &&& post.nonce_change_history == self.nonce_change_history
        &&& post.class_change_history == self.class_change_history
    }
}

/// The provider that writes the state tables.
#[derive(Debug)]
pub struct DbProvider(pub StateDb);

impl DbProvider {
    pub fn new(db: StateDb) -> (provider: Self)
        ensures
            provider.0 == db,
    {
        DbProvider(db)
    }

    /// A provider of the latest state.
    pub fn latest(&self) -> (provider: LatestStateProvider<'_>)
        ensures
            *provider.0 == self.0,
    {
        LatestStateProvider::new(&self.0)
    }

    /// A provider of the state as of `block_number`.
    pub fn historical(&self, block_number: BlockNumber) -> (provider: HistoricalStateProvider<'_>)
        ensures
            provider.state() == self.0,
            provider.pinned() == block_number,
    {
        HistoricalStateProvider::new(&self.0, block_number)
    }

    /// Sets the latest nonce of the contract.
    pub fn set_nonce(&mut self, address: ContractAddress, nonce: Nonce) -> (r: ProviderResult<()>)
        ensures
            r is Ok,
            nonce_set(old(self).0.contract_info@, final(self).0.contract_info@, address, nonce),
            final(self).0 == (StateDb { contract_info: final(self).0.contract_info, ..old(self).0 }),
    {
        let value = match self.0.contract_info.get(&address) {
            Some(info) => GenericContractInfo { nonce, class_hash: info.class_hash },
            None => GenericContractInfo { nonce, class_hash: GenericContractInfo::default().class_hash },
        };
        self.0.contract_info.put(address, value);
        proof {
            assert(final(self).0.contract_info@.dom() =~= old(self).0.contract_info@.dom().insert(
                address,
            ));
        }
        Ok(())
    }

    /// Sets the latest value of the contract's storage slot, in place of
    /// the value that the slot had.
    pub fn set_storage(
        &mut self,
        address: ContractAddress,
        storage_key: StorageKey,
        storage_value: StorageValue,
    ) -> (r: ProviderResult<()>)
        ensures
            r is Ok,
            storage_set(
                old(self).0.contract_storage@,
                final(self).0.contract_storage@,
                address,
                StorageEntry { key: storage_key, value: storage_value },
            ),
            final(self).0 == (StateDb {
                contract_storage: final(self).0.contract_storage,
                ..old(self).0
            }),
    {
        let entry = self.0.contract_storage.seek_by_key_subkey(&address, &storage_key);
        let ghost before = self.0.contract_storage@;
        let new_entry = StorageEntry { key: storage_key, value: storage_value };
        proof {
            if unique_subkey(before, address, storage_key) {
                lemma_replaced_unique(before, address, entry, new_entry);
            }
        }
        match entry {
            Some(entry) => {
                if entry.key.same_as(&storage_key) {
                    self.0.contract_storage.delete(&address, &entry);
                }
            },
            None => {},
        }
        self.0.contract_storage.put(address, new_entry);
        Ok(())
    }

    /// Sets the latest class of the contract.
    pub fn set_class_hash_of_contract(&mut self, address: ContractAddress, class_hash: ClassHash) -> (r:
        ProviderResult<()>)
        ensures
            r is Ok,
            class_hash_set(
                old(self).0.contract_info@,
                final(self).0.contract_info@,
                address,
                class_hash,
            ),
            final(self).0 == (StateDb { contract_info: final(self).0.contract_info, ..old(self).0 }),
    {
        let value = match self.0.contract_info.get(&address) {
            Some(info) => GenericContractInfo { class_hash, nonce: info.nonce },
            None => GenericContractInfo { class_hash, nonce: GenericContractInfo::default().nonce },
        };
        self.0.contract_info.put(address, value);
        proof {
            assert(final(self).0.contract_info@.dom() =~= old(self).0.contract_info@.dom().insert(
                address,
            ));
        }
        Ok(())
    }

    /// Stores the class under its hash.
    pub fn set_class(&mut self, hash: ClassHash, class: ContractClass) -> (r: ProviderResult<()>)
        ensures
            r is Ok,
            final(self).0.classes@ == old(self).0.classes@.insert(hash, class),
            final(self).0 == (StateDb { classes: final(self).0.classes, ..old(self).0 }),
    {
        self.0.classes.put(hash, class);
        Ok(())
    }

    /// Stores the compiled class hash of the class.
    pub fn set_compiled_class_hash_of_class_hash(
        &mut self,
        hash: ClassHash,
        compiled_hash: CompiledClassHash,
    ) -> (r: ProviderResult<()>)
        ensures
            r is Ok,
            final(self).0.compiled_class_hashes@ == old(self).0.compiled_class_hashes@.insert(
                hash,
                compiled_hash,
            ),
            final(self).0 == (StateDb {
                compiled_class_hashes: final(self).0.compiled_class_hashes,
                ..old(self).0
            }),
    {
        self.0.compiled_class_hashes.put(hash, compiled_hash);
        Ok(())
    }

    /// Records that the class was declared in `block`, unless it was
    /// declared before, and stores the class and its compiled class hash.
    pub fn declare_class(
        &mut self,
        block: BlockNumber,
        hash: ClassHash,
        class: ContractClass,
        compiled_hash: CompiledClassHash,
    ) -> (r: ProviderResult<()>)
        ensures
            r is Ok,
            final(self).0.class_declaration_block@ == if old(self).0.class_declaration_block@.contains_key(hash) {
                old(self).0.class_declaration_block@
            } else {
                old(self).0.class_declaration_block@.insert(hash, block)
            },
            final(self).0.classes@ == old(self).0.classes@.insert(hash, class),
            final(self).0.compiled_class_hashes@ == old(self).0.compiled_class_hashes@.insert(
                hash,
                compiled_hash,
            ),
            final(self).0 == (StateDb {
                class_declaration_block: final(self).0.class_declaration_block,
                classes: final(self).0.classes,
                compiled_class_hashes: final(self).0.compiled_class_hashes,
                ..old(self).0
            }),
    {
        let _ = self.0.class_declaration_block.insert(hash, block);
        self.0.classes.put(hash, class);
        self.0.compiled_class_hashes.put(hash, compiled_hash);
        Ok(())
    }

    /// Records that the contract's nonce changed to `nonce` in `block`.
    pub fn record_nonce_change(&mut self, block: BlockNumber, address: ContractAddress, nonce: Nonce) -> (r:
        ProviderResult<()>)
        ensures
            r is Ok,
            old(self).0.nonce_recorded(final(self).0, block, address, nonce),
    {
        let mut lists = match self.0.contract_info_change_set.delete(&address) {
            Some(lists) => lists,
            None => ContractInfoChangeList::new(),
        };
        record_change(
            &mut lists.nonce_change_list,
            &mut self.0.nonce_change_history,
            block,
            ContractNonceChange { contract_address: address, nonce },
        );
        self.0.contract_info_change_set.put(address, lists);
        self.set_nonce(address, nonce)
    }

    /// Records that the contract's class changed to `class_hash` in
    /// `block`.
    pub fn record_class_change(
        &mut self,
        block: BlockNumber,
        address: ContractAddress,
        class_hash: ClassHash,
    ) -> (r: ProviderResult<()>)
        ensures
            r is Ok,
            old(self).0.class_recorded(final(self).0, block, address, class_hash),
    {
        let mut lists = match self.0.contract_info_change_set.delete(&address) {
            Some(lists) => lists,
            None => ContractInfoChangeList::new(),
        };
        record_change(
            &mut lists.class_change_list,
            &mut self.0.class_change_history,
            block,
            ContractClassChange { contract_address: address, class_hash },
        );
        self.0.contract_info_change_set.put(address, lists);
        self.set_class_hash_of_contract(address, class_hash)
    }

    /// Records that the contract's storage slot changed to `value` in
    /// `block`.
    pub fn record_storage_change(
        &mut self,
        block: BlockNumber,
        address: ContractAddress,
        storage_key: StorageKey,
        value: StorageValue,
    ) -> (r: ProviderResult<()>)
        ensures
            r is Ok,
            old(self).0.storage_recorded(
                final(self).0,
                block,
                ContractStorageKey { contract_address: address, key: storage_key },
                value,
            ),
    {
        let key = ContractStorageKey { contract_address: address, key: storage_key };
        let mut list = match self.0.storage_change_set.delete(&key) {
            Some(list) => list,
            None => BlockList::new(),
        };
        record_change(
            &mut list,
            &mut self.0.storage_change_history,
            block,
            ContractStorageEntry { key, value },
        );
        self.0.storage_change_set.put(key, list);
        self.set_storage(address, storage_key, value)
    }
}

} // verus!
