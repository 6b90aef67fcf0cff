//! Field elements and the entity keys built from them.

use vstd::prelude::*;

verus! {

/// High half of the field's modulus `2^251 + 17 * 2^192 + 1`; its low half is 1.
pub const MODULUS_HI: u128 = 0x0800_0000_0000_0011_0000_0000_0000_0000;

/// `2^128`, the weight of a felt's high half.
pub open spec fn pow128() -> int {
    0x1_0000_0000_0000_0000_0000_0000_0000_0000int
}

/// `2^256`, a bound above every felt.
pub open spec fn pow256() -> int {
    0x1_0000_0000_0000_0000_0000_0000_0000_0000_0000_0000_0000_0000_0000_0000_0000_0000int
}

/// An element of the Starknet field, held as the two halves of its
/// canonical 256-bit representative.
#[derive(Debug, Clone, Copy, PartialEq, Eq, Structural)]
pub struct Felt {
    hi: u128,
    lo: u128,
}

/// Whether the number `hi * 2^128 + lo` lies below the field's modulus.
pub open spec fn below_modulus(hi: u128, lo: u128) -> bool {
    hi < MODULUS_HI || (hi == MODULUS_HI && lo == 0)
}

impl Felt {
    #[verifier::type_invariant]
    pub closed spec fn canonical(self) -> bool {
        below_modulus(self.hi, self.lo)
    }

    /// High half of the representative.
    pub closed spec fn hi(self) -> u128 {
        self.hi
    }

    /// Low half of the representative.
    pub closed spec fn lo(self) -> u128 {
        self.lo
    }

    /// The integer that the felt stands for.
    pub open spec fn value(self) -> int {
        self.hi() * pow128() + self.lo()
    }

    /// Two felts with the same halves are the same felt.
    pub proof fn lemma_halves_determine(a: Felt, b: Felt)
        ensures
            a.hi() == b.hi() && a.lo() == b.lo() ==> a == b,
            a.value() == b.value() ==> a == b,
    {
    }

    /// The felt with the given halves, or `None` where they do not name a
    /// number below the modulus.
    pub fn new(hi: u128, lo: u128) -> (r: Option<Felt>)
        ensures
            r is Some <==> below_modulus(hi, lo),
            r matches Some(f) ==> f.hi() == hi && f.lo() == lo,
    {
        if hi < MODULUS_HI || (hi == MODULUS_HI && lo == 0) {
            Some(Felt { hi, lo })
        } else {
            None
        }
    }

    pub fn from_u128(value: u128) -> (f: Felt)
        ensures
            f.hi() == 0,
            f.lo() == value,
            f.value() == value,
    {
        Felt { hi: 0, lo: value }
    }

    pub fn from_u64(value: u64) -> (f: Felt)
        ensures
            f.hi() == 0,
            f.lo() == value,
            f.value() == value,
    {
        Felt { hi: 0, lo: value as u128 }
    }

    pub fn zero() -> (f: Felt)
        ensures
            f.value() == 0,
    {
        Felt { hi: 0, lo: 0 }
    }

    pub fn one() -> (f: Felt)
        ensures
            f.value() == 1,
    {
        Felt { hi: 0, lo: 1 }
    }

    pub fn two() -> (f: Felt)
        ensures
            f.value() == 2,
    {
        Felt { hi: 0, lo: 2 }
    }

    pub fn three() -> (f: Felt)
        ensures
            f.value() == 3,
    {
        Felt { hi: 0, lo: 3 }
    }

    /// The two halves of the representative, high half first.
    pub fn to_halves(&self) -> (r: (u128, u128))
        ensures
            r.0 == self.hi(),
            r.1 == self.lo(),
    {
        (self.hi, self.lo)
    }
}

/// The address of a contract.
#[derive(Debug, Clone, Copy, PartialEq, Eq, Structural)]
pub struct ContractAddress(pub Felt);

impl ContractAddress {
    pub fn new(address: Felt) -> (a: ContractAddress)
        ensures
            a.0 == address,
    {
        ContractAddress(address)
    }
}

/// The hash of a contract class.
pub type ClassHash = Felt;

/// The hash of a compiled contract class.
pub type CompiledClassHash = Felt;

/// The nonce of a contract.
pub type Nonce = Felt;

/// The key of a slot in a contract's storage.
pub type StorageKey = Felt;

/// The value of a slot in a contract's storage.
pub type StorageValue = Felt;

/// The number of a block.
pub type BlockNumber = u64;

} // verus!
