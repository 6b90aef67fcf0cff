//! Keys of tables, their order and their encoding.

use vstd::prelude::*;
use crate::codec::{
    append_be, be_digits, be_number, bytes_before, lemma_be_digits, lemma_be_number_concat,
    lemma_byte_order_is_number_order, lemma_spans,
};
use crate::felt::{ContractAddress, Felt};

verus! {

/// A key of a table. Each key has a position among the integers; a table
/// keeps its rows in the order of their keys' positions, which is the order
/// of the keys' encodings as raw bytes.
pub trait TableKey: Copy {
    /// The key's position in the order of all keys of its type.
    spec fn position(self) -> int;

    /// The bytes under which the key is stored.
    spec fn encoding(self) -> Seq<u8>;

    /// Different keys have different positions.
    proof fn lemma_position_injective(a: Self, b: Self)
        ensures
            a.position() == b.position() ==> a == b,
    ;

    /// The encoding keeps the order: all keys of the type are encoded in
    /// the same number of bytes, and one key's bytes stand before
    /// another's exactly when the key stands before the other.
    proof fn lemma_encoding_keeps_order(a: Self, b: Self)
        ensures
            a.encoding().len() == b.encoding().len(),
            bytes_before(a.encoding(), b.encoding()) <==> a.position() < b.position(),
    ;

    /// Whether the two keys are the same key.
    fn same_as(&self, other: &Self) -> (b: bool)
        ensures
            b == (*self == *other),
    ;

    /// Whether this key comes before the other.
    fn is_before(&self, other: &Self) -> (b: bool)
        ensures
            b == (self.position() < other.position()),
    ;

    /// The bytes under which the key is stored.
    fn encode(&self) -> (bytes: Vec<u8>)
        ensures
            bytes@ == self.encoding(),
    ;
}

/// The bytes of a felt: its high half in sixteen bytes, then its low half
/// in sixteen, each most significant byte first.
pub open spec fn felt_bytes(felt: Felt) -> Seq<u8> {
    be_digits(felt.hi() as nat, 16) + be_digits(felt.lo() as nat, 16)
}

/// The bytes of a felt have the length 32 and stand for the felt's value.
pub proof fn lemma_felt_bytes(felt: Felt)
    ensures
        felt_bytes(felt).len() == 32,
        be_number(felt_bytes(felt)) == felt.value(),
{
    lemma_spans();
    lemma_be_digits(felt.hi() as nat, 16);
    lemma_be_digits(felt.lo() as nat, 16);
    lemma_be_number_concat(be_digits(felt.hi() as nat, 16), be_digits(felt.lo() as nat, 16));
}

/// Writes the bytes of a felt.
fn encode_felt(felt: &Felt) -> (bytes: Vec<u8>)
    ensures
        bytes@ == felt_bytes(*felt),
{
    let (hi, lo) = felt.to_halves();
    let mut bytes: Vec<u8> = Vec::new();
    append_be(&mut bytes, hi, 16);
    append_be(&mut bytes, lo, 16);
    proof {
        assert(bytes@ =~= felt_bytes(*felt));
    }
    bytes
}

impl TableKey for u64 {
    open spec fn position(self) -> int {
        self as int
    }

    open spec fn encoding(self) -> Seq<u8> {
        be_digits(self as nat, 8)
    }

    proof fn lemma_position_injective(a: Self, b: Self) {
    }

    proof fn lemma_encoding_keeps_order(a: Self, b: Self) {
        lemma_spans();
        lemma_be_digits(a as nat, 8);
        lemma_be_digits(b as nat, 8);
        lemma_byte_order_is_number_order(a.encoding(), b.encoding());
    }

    fn same_as(&self, other: &Self) -> (b: bool) {
        *self == *other
    }

    fn is_before(&self, other: &Self) -> (b: bool) {
        *self < *other
    }

    fn encode(&self) -> (bytes: Vec<u8>) {
        let mut bytes: Vec<u8> = Vec::new();
        append_be(&mut bytes, *self as u128, 8);
        proof {
            assert(bytes@ =~= self.encoding());
        }
        bytes
    }
}

impl TableKey for Felt {
    open spec fn position(self) -> int {
        self.value()
    }

    open spec fn encoding(self) -> Seq<u8> {
        felt_bytes(self)
    }

    proof fn lemma_position_injective(a: Self, b: Self) {
        Felt::lemma_halves_determine(a, b);
    }

    proof fn lemma_encoding_keeps_order(a: Self, b: Self) {
        lemma_felt_bytes(a);
        lemma_felt_bytes(b);
        lemma_byte_order_is_number_order(a.encoding(), b.encoding());
    }

    fn same_as(&self, other: &Self) -> (b: bool) {
        *self == *other
    }

    fn is_before(&self, other: &Self) -> (b: bool) {
        let (a_hi, a_lo) = self.to_halves();
        let (b_hi, b_lo) = other.to_halves();
        a_hi < b_hi || (a_hi == b_hi && a_lo < b_lo)
    }

    fn encode(&self) -> (bytes: Vec<u8>) {
        encode_felt(self)
    }
}

impl TableKey for ContractAddress {
    open spec fn position(self) -> int {
        self.0.value()
    }

    open spec fn encoding(self) -> Seq<u8> {
        felt_bytes(self.0)
    }

    proof fn lemma_position_injective(a: Self, b: Self) {
        Felt::lemma_halves_determine(a.0, b.0);
    }

    proof fn lemma_encoding_keeps_order(a: Self, b: Self) {
        lemma_felt_bytes(a.0);
        lemma_felt_bytes(b.0);
        lemma_byte_order_is_number_order(a.encoding(), b.encoding());
    }

    fn same_as(&self, other: &Self) -> (b: bool) {
        *self == *other
    }

    fn is_before(&self, other: &Self) -> (b: bool) {
        self.0.is_before(&other.0)
    }

    fn encode(&self) -> (bytes: Vec<u8>) {
        encode_felt(&self.0)
    }
}

} // verus!
