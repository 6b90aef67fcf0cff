//! The rows of the state tables.

use vstd::prelude::*;
use crate::codec::{lemma_be_number_concat, lemma_byte_order_is_number_order, lemma_spans};
use crate::dup::DupValue;
use crate::felt::{
    pow256, ClassHash, ContractAddress, Felt, Nonce, StorageKey, StorageValue,
};
use crate::key::{felt_bytes, lemma_felt_bytes, TableKey};
use crate::list::BlockList;
use crate::table::Stored;

verus! {

/// What the latest state holds for a contract.
#[derive(Debug, Clone, Copy, PartialEq, Eq, Structural)]
pub struct GenericContractInfo {
    /// The contract's nonce.
    pub nonce: Nonce,
    /// The hash of the contract's class.
    pub class_hash: ClassHash,
}

impl Default for GenericContractInfo {
    fn default() -> (info: Self)
        ensures
            info.nonce.value() == 0,
            info.class_hash.value() == 0,
    {
        GenericContractInfo { nonce: Felt::zero(), class_hash: Felt::zero() }
    }
}

/// One slot of a contract's storage: the storage key, which is the row's
/// subkey, and the slot's value.
#[derive(Debug, Clone, Copy, PartialEq, Eq, Structural)]
pub struct StorageEntry {
    pub key: StorageKey,
    pub value: StorageValue,
}

impl DupValue for StorageEntry {
    type Subkey = Felt;

    open spec fn subkey(self) -> Felt {
        self.key
    }

    open spec fn rest(self) -> int {
        self.value.value()
    }

    proof fn lemma_parts_determine(a: Self, b: Self) {
        Felt::lemma_halves_determine(a.value, b.value);
    }

    fn get_subkey(&self) -> (s: Felt) {
        self.key
    }

    fn same_as(&self, other: &Self) -> (b: bool) {
        *self == *other
    }

    fn rest_is_before(&self, other: &Self) -> (b: bool) {
        self.value.is_before(&other.value)
    }
}

/// The key of one storage slot among all contracts' slots.
#[derive(Debug, Clone, Copy, PartialEq, Eq, Structural)]
pub struct ContractStorageKey {
    pub contract_address: ContractAddress,
    pub key: StorageKey,
}

impl TableKey for ContractStorageKey {
    open spec fn position(self) -> int {
        self.contract_address.0.value() * pow256() + self.key.value()
    }

    /// The bytes of the contract's address, then the bytes of the storage
    /// key.
    open spec fn encoding(self) -> Seq<u8> {
        felt_bytes(self.contract_address.0) + felt_bytes(self.key)
    }

    proof fn lemma_position_injective(a: Self, b: Self) {
        Felt::lemma_halves_determine(a.contract_address.0, b.contract_address.0);
        Felt::lemma_halves_determine(a.key, b.key);
    }

    proof fn lemma_encoding_keeps_order(a: Self, b: Self) {
        lemma_spans();
        lemma_felt_bytes(a.contract_address.0);
        lemma_felt_bytes(a.key);
        lemma_felt_bytes(b.contract_address.0);
        lemma_felt_bytes(b.key);
        lemma_be_number_concat(felt_bytes(a.contract_address.0), felt_bytes(a.key));
        lemma_be_number_concat(felt_bytes(b.contract_address.0), felt_bytes(b.key));
        lemma_byte_order_is_number_order(a.encoding(), b.encoding());
    }

    fn same_as(&self, other: &Self) -> (b: bool) {
        *self == *other
    }

    fn is_before(&self, other: &Self) -> (b: bool) {
        proof {
            Felt::lemma_halves_determine(self.contract_address.0, other.contract_address.0);
        }
        if self.contract_address.is_before(&other.contract_address) {
            true
        } else if self.contract_address.same_as(&other.contract_address) {
            self.key.is_before(&other.key)
        } else {
            false
        }
    }

    fn encode(&self) -> (bytes: Vec<u8>) {
        let mut bytes = self.contract_address.encode();
        let mut key = self.key.encode();
        bytes.append(&mut key);
        bytes
    }
}

/// The value that a storage slot was given in a block: the slot's key,
/// which is the row's subkey, and the value.
#[derive(Debug, Clone, Copy, PartialEq, Eq, Structural)]
pub struct ContractStorageEntry {
    pub key: ContractStorageKey,
    pub value: StorageValue,
}

impl DupValue for ContractStorageEntry {
    type Subkey = ContractStorageKey;

    open spec fn subkey(self) -> ContractStorageKey {
        self.key
    }

    open spec fn rest(self) -> int {
        self.value.value()
    }

    proof fn lemma_parts_determine(a: Self, b: Self) {
        Felt::lemma_halves_determine(a.value, b.value);
    }

    fn get_subkey(&self) -> (s: ContractStorageKey) {
        self.key
    }

    fn same_as(&self, other: &Self) -> (b: bool) {
        *self == *other
    }

    fn rest_is_before(&self, other: &Self) -> (b: bool) {
        self.value.is_before(&other.value)
    }
}

/// The nonce that a contract was given in a block: the contract's address,
/// which is the row's subkey, and the nonce.
#[derive(Debug, Clone, Copy, PartialEq, Eq, Structural)]
pub struct ContractNonceChange {
    pub contract_address: ContractAddress,
    pub nonce: Nonce,
}

impl DupValue for ContractNonceChange {
    type Subkey = ContractAddress;

    open spec fn subkey(self) -> ContractAddress {
        self.contract_address
    }

    open spec fn rest(self) -> int {
        self.nonce.value()
    }

    proof fn lemma_parts_determine(a: Self, b: Self) {
        Felt::lemma_halves_determine(a.nonce, b.nonce);
    }

    fn get_subkey(&self) -> (s: ContractAddress) {
        self.contract_address
    }

    fn same_as(&self, other: &Self) -> (b: bool) {
        *self == *other
    }

    fn rest_is_before(&self, other: &Self) -> (b: bool) {
        self.nonce.is_before(&other.nonce)
    }
}

/// The class that a contract was given in a block: the contract's address,
/// which is the row's subkey, and the class hash.
#[derive(Debug, Clone, Copy, PartialEq, Eq, Structural)]
pub struct ContractClassChange {
    pub contract_address: ContractAddress,
    pub class_hash: ClassHash,
}

impl DupValue for ContractClassChange {
    type Subkey = ContractAddress;

    open spec fn subkey(self) -> ContractAddress {
        self.contract_address
    }

    open spec fn rest(self) -> int {
        self.class_hash.value()
    }

    proof fn lemma_parts_determine(a: Self, b: Self) {
        Felt::lemma_halves_determine(a.class_hash, b.class_hash);
    }

    fn get_subkey(&self) -> (s: ContractAddress) {
        self.contract_address
    }

    fn same_as(&self, other: &Self) -> (b: bool) {
        *self == *other
    }

    fn rest_is_before(&self, other: &Self) -> (b: bool) {
        self.class_hash.is_before(&other.class_hash)
    }
}

/// The blocks at which a contract's class and nonce changed.
#[derive(Debug)]
pub struct ContractInfoChangeList {
    pub class_change_list: BlockList,
    pub nonce_change_list: BlockList,
}

impl ContractInfoChangeList {
    /// The lists of a contract that has not changed yet.
    pub fn new() -> (lists: Self)
        ensures
            lists.class_change_list@ == Seq::<u64>::empty(),
            lists.nonce_change_list@ == Seq::<u64>::empty(),
    {
        ContractInfoChangeList {
            class_change_list: BlockList::new(),
            nonce_change_list: BlockList::new(),
        }
    }
}

/// A contract class as it was declared: the bytes of its definition.
#[derive(Debug, PartialEq, Eq)]
pub struct ContractClass {
    pub definition: Vec<u8>,
}

impl View for ContractClass {
    type V = Seq<u8>;

    open spec fn view(&self) -> Seq<u8> {
        self.definition@
    }
}

impl ContractClass {
    pub fn new(definition: Vec<u8>) -> (class: Self)
        ensures
            class@ == definition@,
    {
        ContractClass { definition }
    }

    /// A second copy of the class.
    pub fn duplicate(&self) -> (class: Self)
        ensures
            class@ == self@,
    {
        ContractClass { definition: self.definition.clone() }
    }
}


impl Stored for Felt {
    type Content = Felt;

    open spec fn content(&self) -> Felt {
        *self
    }

    fn replica(&self) -> (r: Self) {
        *self
    }
}

impl Stored for GenericContractInfo {
    type Content = GenericContractInfo;

    open spec fn content(&self) -> GenericContractInfo {
        *self
    }

    fn replica(&self) -> (r: Self) {
        *self
    }
}

impl Stored for BlockList {
    type Content = Seq<u64>;

    open spec fn content(&self) -> Seq<u64> {
        self@
    }

    fn replica(&self) -> (r: Self) {
        self.duplicate()
    }
}

impl Stored for ContractInfoChangeList {
    type Content = (Seq<u64>, Seq<u64>);

    /// The class change list, then the nonce change list.
    open spec fn content(&self) -> (Seq<u64>, Seq<u64>) {
        (self.class_change_list@, self.nonce_change_list@)
    }

    fn replica(&self) -> (r: Self) {
        ContractInfoChangeList {
            class_change_list: self.class_change_list.duplicate(),
            nonce_change_list: self.nonce_change_list.duplicate(),
        }
    }
}

impl Stored for ContractClass {
    type Content = Seq<u8>;

    open spec fn content(&self) -> Seq<u8> {
        self@
    }

    fn replica(&self) -> (r: Self) {
        self.duplicate()
    }
}

} // verus!
