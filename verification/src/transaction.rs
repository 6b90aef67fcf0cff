//! Transactions, and what the hash of each is computed from.

use std::sync::Arc;
use vstd::prelude::*;
use crate::felt::{ClassHash, CompiledClassHash, ContractAddress, Felt, Nonce};
use crate::models::ContractClass;

verus! {

/// The hash of a transaction.
pub type TxHash = Felt;

/// The sequential number for all the transactions.
pub type TxNumber = u64;

/// The id of the chain on which a transaction is initiated.
#[derive(Debug, Clone, Copy, PartialEq, Eq, Structural)]
pub struct ChainId(pub Felt);

/// Where the data of a transaction is made available.
#[derive(Debug, Clone, Copy, PartialEq, Eq, Structural)]
pub enum DataAvailabilityMode {
    L1,
    L2,
}

/// The bounds that a transaction sets for one resource.
#[derive(Debug, Clone, Copy, PartialEq, Eq, Structural)]
pub struct ResourceBounds {
    /// The max amount of the resource that can be used in the tx.
    pub max_amount: u64,
    /// The max price per unit of this resource for this tx.
    pub max_price_per_unit: u128,
}

impl ResourceBounds {
    /// Bounds of nothing.
    pub fn zero() -> (bounds: Self)
        ensures
            bounds == (ResourceBounds { max_amount: 0, max_price_per_unit: 0 }),
    {
        ResourceBounds { max_amount: 0, max_price_per_unit: 0 }
    }
}

/// The bounds of all three resources.
#[derive(Debug, Clone, Copy, PartialEq, Eq, Structural)]
pub struct AllResourceBoundsMapping {
    pub l1_gas: ResourceBounds,
    pub l2_gas: ResourceBounds,
    pub l1_data_gas: ResourceBounds,
}

/// The resource bounds of a transaction: of L1 gas alone, or of all
/// resources.
#[derive(Debug, Clone, Copy, PartialEq, Eq, Structural)]
pub enum ResourceBoundsMapping {
    L1Gas(ResourceBounds),
    All(AllResourceBoundsMapping),
}

impl ResourceBoundsMapping {
    /// The bounds of L1 gas.
    pub open spec fn l1_gas(self) -> ResourceBounds {
        match self {
            ResourceBoundsMapping::L1Gas(bounds) => bounds,
            ResourceBoundsMapping::All(bounds) => bounds.l1_gas,
        }
    }

    /// The bounds of L2 gas, which are zero where only L1 gas is bounded.
    pub open spec fn l2_gas(self) -> ResourceBounds {
        match self {
            ResourceBoundsMapping::L1Gas(_) => ResourceBounds {
                max_amount: 0,
                max_price_per_unit: 0,
            },
            ResourceBoundsMapping::All(bounds) => bounds.l2_gas,
        }
    }

    /// The bounds of L1 data gas, where all resources are bounded.
    pub open spec fn l1_data_gas(self) -> Option<ResourceBounds> {
        match self {
            ResourceBoundsMapping::L1Gas(_) => None,
            ResourceBoundsMapping::All(bounds) => Some(bounds.l1_data_gas),
        }
    }

    /// The three bounds that enter a hash: of L1 gas, of L2 gas, and of L1
    /// data gas where there are any.
    pub fn hashed_bounds(&self) -> (r: (ResourceBounds, ResourceBounds, Option<ResourceBounds>))
        ensures
            r.0 == self.l1_gas(),
            r.1 == self.l2_gas(),
            r.2 == self.l1_data_gas(),
    {
        match self {
            ResourceBoundsMapping::All(bounds) => (
                bounds.l1_gas,
                bounds.l2_gas,
                Some(bounds.l1_data_gas),
            ),
            ResourceBoundsMapping::L1Gas(bounds) => (*bounds, ResourceBounds::zero(), None),
        }
    }
}

/// The transaction types as defined by the Starknet API.
#[derive(Debug, Clone, Copy, PartialEq, Eq, Structural)]
pub enum TxType {
    /// Invokes a function of a contract.
    Invoke,
    /// Declares new contract class.
    Declare,
    /// Deploys new account contracts.
    DeployAccount,
    /// Function invocation that is instantiated from the L1.
    L1Handler,
    /// Legacy transaction type for deploying new contracts.
    Deploy,
}

impl TxType {
    /// The name of the type.
    pub open spec fn name(self) -> Seq<char> {
        match self {
            TxType::Invoke => "INVOKE"@,
            TxType::Declare => "DECLARE"@,
            TxType::DeployAccount => "DEPLOY_ACCOUNT"@,
            TxType::L1Handler => "L1_HANDLER"@,
            TxType::Deploy => "DEPLOY"@,
        }
    }

    /// The name of the type.
    pub fn as_str(&self) -> (s: &'static str)
        ensures
            s@ == self.name(),
    {
        match self {
            TxType::Invoke => "INVOKE",
            TxType::Declare => "DECLARE",
            TxType::DeployAccount => "DEPLOY_ACCOUNT",
            TxType::L1Handler => "L1_HANDLER",
            TxType::Deploy => "DEPLOY",
        }
    }
}

impl Default for TxType {
    fn default() -> (t: Self)
        ensures
            t == TxType::Invoke,
    {
        TxType::Invoke
    }
}

#[derive(Debug, Clone, PartialEq, Eq)]
pub struct InvokeTxV0 {
    /// The account address which the transaction is initiated from.
    pub contract_address: ContractAddress,
    /// Entry point selector
    pub entry_point_selector: Felt,
    /// The data used as the input to the execute entry point of sender account contract.
    pub calldata: Vec<Felt>,
    /// The transaction signature associated with the sender address.
    pub signature: Vec<Felt>,
    /// The max fee that the sender is willing to pay for the transaction.
    pub max_fee: u128,
}

#[derive(Debug, Clone, PartialEq, Eq)]
pub struct InvokeTxV1 {
    /// The chain id of the chain on which the transaction is initiated.
    pub chain_id: ChainId,
    /// The account address which the transaction is initiated from.
    pub sender_address: ContractAddress,
    /// The nonce value of the account.
    pub nonce: Nonce,
    /// The data used as the input to the execute entry point of sender account contract.
    pub calldata: Vec<Felt>,
    /// The transaction signature associated with the sender address.
    pub signature: Vec<Felt>,
    /// The max fee that the sender is willing to pay for the transaction.
    pub max_fee: u128,
}

#[derive(Debug, Clone, PartialEq, Eq)]
pub struct InvokeTxV3 {
    /// The chain id of the chain on which the transaction is initiated.
    pub chain_id: ChainId,
    /// The account address which the transaction is initiated from.
    pub sender_address: ContractAddress,
    /// The nonce value of the account.
    pub nonce: Felt,
    /// The data used as the input to the execute entry point of sender account contract.
    pub calldata: Vec<Felt>,
    /// The transaction signature associated with the sender address.
    pub signature: Vec<Felt>,
    /// Resource bounds for the transaction execution.
    pub resource_bounds: ResourceBoundsMapping,
    /// The tip for the transaction.
    pub tip: u64,
    /// Data needed to allow the paymaster to pay for the transaction in native tokens.
    pub paymaster_data: Vec<Felt>,
    /// Data needed to deploy the account contract from which this tx will be initiated.
    pub account_deployment_data: Vec<Felt>,
    /// The storage domain of the account's nonce (an account has a nonce per da mode)
    pub nonce_data_availability_mode: DataAvailabilityMode,
    /// The storage domain of the account's balance from which fee will be charged
    pub fee_data_availability_mode: DataAvailabilityMode,
}

#[derive(Debug, Clone, PartialEq, Eq)]
pub enum InvokeTx {
    V0(InvokeTxV0),
    V1(InvokeTxV1),
    V3(InvokeTxV3),
}

/// Represents a legacy v0 declare transaction type.
#[derive(Debug, Clone, PartialEq, Eq)]
pub struct DeclareTxV0 {
    pub chain_id: ChainId,
    /// The account address which the transaction is initiated from.
    pub sender_address: ContractAddress,
    /// The transaction signature associated with the sender address.
    pub signature: Vec<Felt>,
    /// The class hash of the contract class to be declared.
    pub class_hash: ClassHash,
    /// The max fee that the sender is willing to pay for the transaction.
    pub max_fee: u128,
}

/// Represents a declare transaction type.
#[derive(Debug, Clone, PartialEq, Eq)]
pub struct DeclareTxV1 {
    pub chain_id: ChainId,
    /// The account address which the transaction is initiated from.
    pub sender_address: ContractAddress,
    /// The nonce value of the account.
    pub nonce: Felt,
    /// The transaction signature associated with the sender address.
    pub signature: Vec<Felt>,
    /// The class hash of the contract class to be declared.
    pub class_hash: ClassHash,
    /// The max fee that the sender is willing to pay for the transaction.
    pub max_fee: u128,
}

/// Represents a declare transaction type.
#[derive(Debug, Clone, PartialEq, Eq)]
pub struct DeclareTxV2 {
    pub chain_id: ChainId,
    /// The account address which the transaction is initiated from.
    pub sender_address: ContractAddress,
    /// The nonce value of the account.
    pub nonce: Felt,
    /// The transaction signature associated with the sender address.
    pub signature: Vec<Felt>,
    /// The class hash of the contract class to be declared.
    pub class_hash: ClassHash,
    /// The compiled class hash of the contract class (only if it's a Sierra class).
    pub compiled_class_hash: CompiledClassHash,
    /// The max fee that the sender is willing to pay for the transaction.
    pub max_fee: u128,
}

/// Represents a declare transaction type.
#[derive(Debug, Clone, PartialEq, Eq)]
pub struct DeclareTxV3 {
    pub chain_id: ChainId,
    /// The account address which the transaction is initiated from.
    pub sender_address: ContractAddress,
    /// The nonce value of the account.
    pub nonce: Felt,
    /// The transaction signature associated with the sender address.
    pub signature: Vec<Felt>,
    /// The class hash of the contract class to be declared.
    pub class_hash: ClassHash,
    /// The CASM class hash of the Sierra contract class.
    pub compiled_class_hash: CompiledClassHash,
    /// Resource bounds for the transaction execution
    pub resource_bounds: ResourceBoundsMapping,
    /// The tip for the transaction
    pub tip: u64,
    /// Data needed to allow the paymaster to pay for the transaction in native tokens
    pub paymaster_data: Vec<Felt>,
    /// Data needed to deploy the account contract from which this tx will be initiated
    pub account_deployment_data: Vec<Felt>,
    /// The storage domain of the account's nonce (an account has a nonce per da mode)
    pub nonce_data_availability_mode: DataAvailabilityMode,
    /// The storage domain of the account's balance from which fee will be charged
    pub fee_data_availability_mode: DataAvailabilityMode,
}

#[derive(Debug, Clone, PartialEq, Eq)]
pub enum DeclareTx {
    V0(DeclareTxV0),
    V1(DeclareTxV1),
    V2(DeclareTxV2),
    V3(DeclareTxV3),
}

/// The transaction type for L1 handler invocation.
#[derive(Debug, Clone, PartialEq, Eq)]
pub struct L1HandlerTx {
    /// The L1 to L2 message nonce.
    pub nonce: Nonce,
    /// The chain id.
    pub chain_id: ChainId,
    /// Amount of fee paid on L1.
    pub paid_fee_on_l1: u128,
    /// Transaction version.
    pub version: Felt,
    /// L1 to L2 message hash.
    pub message_hash: [u8; 32],
    /// The input to the L1 handler function.
    pub calldata: Vec<Felt>,
    /// Contract address of the L1 handler.
    pub contract_address: ContractAddress,
    /// The L1 handler function selector.
    pub entry_point_selector: Felt,
}

#[derive(Debug, Clone, PartialEq, Eq)]
pub struct DeployAccountTxV1 {
    pub chain_id: ChainId,
    /// The nonce value of the account.
    pub nonce: Nonce,
    /// The transaction signature associated with the sender address.
    pub signature: Vec<Felt>,
    /// The hash of the contract class from which the account contract will be deployed from.
    pub class_hash: ClassHash,
    /// The contract address of the account contract that will be deployed.
    pub contract_address: ContractAddress,
    /// The salt used to generate the contract address.
    pub contract_address_salt: Felt,
    /// The input data to the constructor function of the contract class.
    pub constructor_calldata: Vec<Felt>,
    /// The max fee that the sender is willing to pay for the transaction.
    pub max_fee: u128,
}

#[derive(Debug, Clone, PartialEq, Eq)]
pub struct DeployAccountTxV3 {
    pub chain_id: ChainId,
    /// The nonce value of the account.
    pub nonce: Nonce,
    /// The transaction signature associated with the sender address.
    pub signature: Vec<Felt>,
    /// The hash of the contract class from which the account contract will be deployed from.
    pub class_hash: ClassHash,
    /// The contract address of the account contract that will be deployed.
    pub contract_address: ContractAddress,
    /// The salt used to generate the contract address.
    pub contract_address_salt: Felt,
    /// The input data to the constructor function of the contract class.
    pub constructor_calldata: Vec<Felt>,
    /// Resource bounds for the transaction execution
    pub resource_bounds: ResourceBoundsMapping,
    /// The tip for the transaction
    pub tip: u64,
    /// Data needed to allow the paymaster to pay for the transaction in native tokens
    pub paymaster_data: Vec<Felt>,
    /// The storage domain of the account's nonce (an account has a nonce per da mode)
    pub nonce_data_availability_mode: DataAvailabilityMode,
    /// The storage domain of the account's balance from which fee will be charged
    pub fee_data_availability_mode: DataAvailabilityMode,
}

#[derive(Debug, Clone, PartialEq, Eq)]
pub enum DeployAccountTx {
    V1(DeployAccountTxV1),
    V3(DeployAccountTxV3),
}

/// Legacy Deploy transaction type.
#[derive(Debug, Clone, PartialEq, Eq)]
pub struct DeployTx {
    /// The contract address of the account contract that will be deployed.
    pub contract_address: Felt,
    /// The salt used to generate the contract address.
    pub contract_address_salt: Felt,
    /// The input data to the constructor function of the contract class.
    pub constructor_calldata: Vec<Felt>,
    /// The hash of the contract class from which the account contract will be deployed from.
    pub class_hash: Felt,
    /// Transaction version.
    pub version: Felt,
}

#[derive(Debug, Clone, PartialEq, Eq)]
pub enum Tx {
    Invoke(InvokeTx),
    Declare(DeclareTx),
    L1Handler(L1HandlerTx),
    DeployAccount(DeployAccountTx),
    Deploy(DeployTx),
}

/// A declare transaction with the class that it declares.
#[derive(Debug)]
pub struct DeclareTxWithClass {
    /// The contract class.
    pub class: Arc<ContractClass>,
    /// The raw transaction.
    pub transaction: DeclareTx,
}

/// Represents a transaction that has all the necessary data to be executed.
#[derive(Debug)]
pub enum ExecutableTx {
    Invoke(InvokeTx),
    L1Handler(L1HandlerTx),
    Declare(DeclareTxWithClass),
    DeployAccount(DeployAccountTx),
}

/// The fee that a transaction offers: a max fee, or bounds on resources
/// with a tip.
#[derive(Debug, Clone, Copy, PartialEq, Eq, Structural)]
pub enum FeeTerms {
    /// A transaction of a version before 3.
    MaxFee(u128),
    /// A transaction of version 3.
    Bounded {
        tip: u64,
        l1_gas: ResourceBounds,
        l2_gas: ResourceBounds,
        l1_data_gas: Option<ResourceBounds>,
        nonce_data_availability_mode: DataAvailabilityMode,
        fee_data_availability_mode: DataAvailabilityMode,
    },
}

/// What kind of transaction a hash is computed for, with the fields that
/// only that kind has.
#[derive(Debug, Clone, Copy, PartialEq, Eq, Structural)]
pub enum HashedKind {
    Invoke,
    Declare { class_hash: ClassHash, compiled_class_hash: Option<CompiledClassHash> },
    DeployAccount { class_hash: ClassHash, contract_address_salt: Felt },
    L1Handler { version: Felt, entry_point_selector: Felt },
}

/// What the hash of a transaction is computed from.
#[derive(Debug)]
pub struct TxHashInput<'a> {
    pub kind: HashedKind,
    /// The version of the transaction.
    pub version: u8,
    /// The sender, or the contract that is deployed or called.
    pub address: Felt,
    /// The calldata of the call or of the constructor, where the kind has
    /// any.
    pub calldata: Option<&'a Vec<Felt>>,
    /// The fee terms, where the kind has any.
    pub fee: Option<FeeTerms>,
    /// The paymaster data of a transaction of version 3.
    pub paymaster_data: Option<&'a Vec<Felt>>,
    /// The account deployment data of an invoke or declare transaction of
    /// version 3.
    pub account_deployment_data: Option<&'a Vec<Felt>>,
    pub chain_id: Felt,
    /// The nonce, where the kind has one.
    pub nonce: Option<Felt>,
    /// Whether the hash is for a query and not for execution.
    pub is_query: bool,
}

/// The fee terms of a transaction of version 3.
pub open spec fn bounded_terms(
    resource_bounds: ResourceBoundsMapping,
    tip: u64,
    nonce_mode: DataAvailabilityMode,
    fee_mode: DataAvailabilityMode,
) -> FeeTerms {
    FeeTerms::Bounded {
        tip,
        l1_gas: resource_bounds.l1_gas(),
        l2_gas: resource_bounds.l2_gas(),
        l1_data_gas: resource_bounds.l1_data_gas(),
        nonce_data_availability_mode: nonce_mode,
        fee_data_availability_mode: fee_mode,
    }
}

/// The fee terms of a transaction of version 3.
fn bounded(
    resource_bounds: &ResourceBoundsMapping,
    tip: u64,
    nonce_mode: DataAvailabilityMode,
    fee_mode: DataAvailabilityMode,
) -> (terms: FeeTerms)
    ensures
        terms == bounded_terms(*resource_bounds, tip, nonce_mode, fee_mode),
{
    let (l1_gas, l2_gas, l1_data_gas) = resource_bounds.hashed_bounds();
    FeeTerms::Bounded {
        tip,
        l1_gas,
        l2_gas,
        l1_data_gas,
        nonce_data_availability_mode: nonce_mode,
        fee_data_availability_mode: fee_mode,
    }
}

impl Tx {
    /// The number of the transaction's version.
    pub open spec fn version_number(self) -> int {
        match self {
            Tx::Invoke(InvokeTx::V0(_)) => 0,
            Tx::Invoke(InvokeTx::V1(_)) => 1,
            Tx::Invoke(InvokeTx::V3(_)) => 3,
            Tx::Declare(DeclareTx::V0(_)) => 0,
            Tx::Declare(DeclareTx::V1(_)) => 1,
            Tx::Declare(DeclareTx::V2(_)) => 2,
            Tx::Declare(DeclareTx::V3(_)) => 3,
            Tx::L1Handler(tx) => tx.version.value(),
            Tx::DeployAccount(DeployAccountTx::V1(_)) => 1,
            Tx::DeployAccount(DeployAccountTx::V3(_)) => 3,
            Tx::Deploy(tx) => tx.version.value(),
        }
    }

    /// The type of the transaction.
    pub open spec fn kind(self) -> TxType {
        match self {
            Tx::Invoke(_) => TxType::Invoke,
            Tx::Deploy(_) => TxType::Deploy,
            Tx::Declare(_) => TxType::Declare,
            Tx::L1Handler(_) => TxType::L1Handler,
            Tx::DeployAccount(_) => TxType::DeployAccount,
        }
    }

    /// Get the transaction version.
    pub fn version(&self) -> (v: Felt)
        ensures
            v.value() == self.version_number(),
    {
        match self {
            Tx::Invoke(tx) => match tx {
                InvokeTx::V0(_) => Felt::zero(),
                InvokeTx::V1(_) => Felt::one(),
                InvokeTx::V3(_) => Felt::three(),
            },
            Tx::Declare(tx) => match tx {
                DeclareTx::V0(_) => Felt::zero(),
                DeclareTx::V1(_) => Felt::one(),
                DeclareTx::V2(_) => Felt::two(),
                DeclareTx::V3(_) => Felt::three(),
            },
            Tx::L1Handler(tx) => tx.version,
            Tx::DeployAccount(tx) => match tx {
                DeployAccountTx::V1(_) => Felt::one(),
                DeployAccountTx::V3(_) => Felt::three(),
            },
            Tx::Deploy(tx) => tx.version,
        }
    }

    /// Returns the type of the transaction.
    pub fn tx_type(&self) -> (t: TxType)
        ensures
            t == self.kind(),
    {
        match self {
            Tx::Invoke(_) => TxType::Invoke,
            Tx::Deploy(_) => TxType::Deploy,
            Tx::Declare(_) => TxType::Declare,
            Tx::L1Handler(_) => TxType::L1Handler,
            Tx::DeployAccount(_) => TxType::DeployAccount,
        }
    }
}

impl DeclareTxWithClass {
    pub fn new(transaction: DeclareTx, class: ContractClass) -> (tx: Self)
        ensures
            tx.transaction == transaction,
            *tx.class == class,
    {
        let class = Arc::new(class);
        DeclareTxWithClass { class, transaction }
    }
}

impl InvokeTx {
    /// What the hash of the transaction is computed from; nothing for a
    /// transaction of version 0, which has no hash.
    pub open spec fn hash_input(self, is_query: bool) -> Option<TxHashInput<'static>> {
        match self {
            InvokeTx::V0(_) => None,
            InvokeTx::V1(tx) => Some(
                TxHashInput {
                    kind: HashedKind::Invoke,
                    version: 1,
                    address: tx.sender_address.0,
                    calldata: Some(&tx.calldata),
                    fee: Some(FeeTerms::MaxFee(tx.max_fee)),
                    paymaster_data: None,
                    account_deployment_data: None,
                    chain_id: tx.chain_id.0,
                    nonce: Some(tx.nonce),
                    is_query,
                },
            ),
            InvokeTx::V3(tx) => Some(
                TxHashInput {
                    kind: HashedKind::Invoke,
                    version: 3,
                    address: tx.sender_address.0,
                    calldata: Some(&tx.calldata),
                    fee: Some(
                        bounded_terms(
                            tx.resource_bounds,
                            tx.tip,
                            tx.nonce_data_availability_mode,
                            tx.fee_data_availability_mode,
                        ),
                    ),
                    paymaster_data: Some(&tx.paymaster_data),
                    account_deployment_data: Some(&tx.account_deployment_data),
                    chain_id: tx.chain_id.0,
                    nonce: Some(tx.nonce),
                    is_query,
                },
            ),
        }
    }

    /// What the hash of the transaction is computed from.
    pub fn calculate_hash(&self, is_query: bool) -> (r: Option<TxHashInput<'_>>)
        ensures
            r == self.hash_input(is_query),
    {
        match self {
            InvokeTx::V0(_) => None,
            InvokeTx::V1(tx) => Some(
                TxHashInput {
                    kind: HashedKind::Invoke,
                    version: 1,
                    address: tx.sender_address.0,
                    calldata: Some(&tx.calldata),
                    fee: Some(FeeTerms::MaxFee(tx.max_fee)),
                    paymaster_data: None,
                    account_deployment_data: None,
                    chain_id: tx.chain_id.0,
                    nonce: Some(tx.nonce),
                    is_query,
                },
            ),
            InvokeTx::V3(tx) => Some(
                TxHashInput {
                    kind: HashedKind::Invoke,
                    version: 3,
                    address: tx.sender_address.0,
                    calldata: Some(&tx.calldata),
                    fee: Some(
                        bounded(
                            &tx.resource_bounds,
                            tx.tip,
                            tx.nonce_data_availability_mode,
                            tx.fee_data_availability_mode,
                        ),
                    ),
                    paymaster_data: Some(&tx.paymaster_data),
                    account_deployment_data: Some(&tx.account_deployment_data),
                    chain_id: tx.chain_id.0,
                    nonce: Some(tx.nonce),
                    is_query,
                },
            ),
        }
    }
}

impl DeclareTx {
    /// The hash of the class that the transaction declares.
    pub open spec fn declared(self) -> ClassHash {
        match self {
            DeclareTx::V0(tx) => tx.class_hash,
            DeclareTx::V1(tx) => tx.class_hash,
            DeclareTx::V2(tx) => tx.class_hash,
            DeclareTx::V3(tx) => tx.class_hash,
        }
    }

    pub fn class_hash(&self) -> (hash: ClassHash)
        ensures
            hash == self.declared(),
    {
        match self {
            DeclareTx::V0(tx) => tx.class_hash,
            DeclareTx::V1(tx) => tx.class_hash,
            DeclareTx::V2(tx) => tx.class_hash,
            DeclareTx::V3(tx) => tx.class_hash,
        }
    }

    /// What the hash of the transaction is computed from.
    pub open spec fn hash_input(self, is_query: bool) -> TxHashInput<'static> {
        match self {
            DeclareTx::V0(tx) => TxHashInput {
                kind: HashedKind::Declare { class_hash: tx.class_hash, compiled_class_hash: None },
                version: 0,
                address: tx.sender_address.0,
                calldata: None,
                fee: Some(FeeTerms::MaxFee(tx.max_fee)),
                paymaster_data: None,
                account_deployment_data: None,
                chain_id: tx.chain_id.0,
                nonce: None,
                is_query,
            },
            DeclareTx::V1(tx) => TxHashInput {
                kind: HashedKind::Declare { class_hash: tx.class_hash, compiled_class_hash: None },
                version: 1,
                address: tx.sender_address.0,
                calldata: None,
                fee: Some(FeeTerms::MaxFee(tx.max_fee)),
                paymaster_data: None,
                account_deployment_data: None,
                chain_id: tx.chain_id.0,
                nonce: Some(tx.nonce),
                is_query,
            },
            DeclareTx::V2(tx) => TxHashInput {
                kind: HashedKind::Declare {
                    class_hash: tx.class_hash,
                    compiled_class_hash: Some(tx.compiled_class_hash),
                },
                version: 2,
                address: tx.sender_address.0,
                calldata: None,
                fee: Some(FeeTerms::MaxFee(tx.max_fee)),
                paymaster_data: None,
                account_deployment_data: None,
                chain_id: tx.chain_id.0,
                nonce: Some(tx.nonce),
                is_query,
            },
            DeclareTx::V3(tx) => TxHashInput {
                kind: HashedKind::Declare {
                    class_hash: tx.class_hash,
                    compiled_class_hash: Some(tx.compiled_class_hash),
                },
                version: 3,
                address: tx.sender_address.0,
                calldata: None,
                fee: Some(
                    bounded_terms(
                        tx.resource_bounds,
                        tx.tip,
                        tx.nonce_data_availability_mode,
                        tx.fee_data_availability_mode,
                    ),
                ),
                paymaster_data: Some(&tx.paymaster_data),
                account_deployment_data: Some(&tx.account_deployment_data),
                chain_id: tx.chain_id.0,
                nonce: Some(tx.nonce),
                is_query,
            },
        }
    }

    /// What the hash of the transaction is computed from.
    pub fn calculate_hash(&self, is_query: bool) -> (r: TxHashInput<'_>)
        ensures
            r == self.hash_input(is_query),
    {
        match self {
            DeclareTx::V0(tx) => TxHashInput {
                kind: HashedKind::Declare { class_hash: tx.class_hash, compiled_class_hash: None },
                version: 0,
                address: tx.sender_address.0,
                calldata: None,
                fee: Some(FeeTerms::MaxFee(tx.max_fee)),
                paymaster_data: None,
                account_deployment_data: None,
                chain_id: tx.chain_id.0,
                nonce: None,
                is_query,
            },
            DeclareTx::V1(tx) => TxHashInput {
                kind: HashedKind::Declare { class_hash: tx.class_hash, compiled_class_hash: None },
                version: 1,
                address: tx.sender_address.0,
                calldata: None,
                fee: Some(FeeTerms::MaxFee(tx.max_fee)),
                paymaster_data: None,
                account_deployment_data: None,
                chain_id: tx.chain_id.0,
                nonce: Some(tx.nonce),
                is_query,
            },
            DeclareTx::V2(tx) => TxHashInput {
                kind: HashedKind::Declare {
                    class_hash: tx.class_hash,
                    compiled_class_hash: Some(tx.compiled_class_hash),
                },
                version: 2,
                address: tx.sender_address.0,
                calldata: None,
                fee: Some(FeeTerms::MaxFee(tx.max_fee)),
                paymaster_data: None,
                account_deployment_data: None,
                chain_id: tx.chain_id.0,
                nonce: Some(tx.nonce),
                is_query,
            },
            DeclareTx::V3(tx) => TxHashInput {
                kind: HashedKind::Declare {
                    class_hash: tx.class_hash,
                    compiled_class_hash: Some(tx.compiled_class_hash),
                },
                version: 3,
                address: tx.sender_address.0,
                calldata: None,
                fee: Some(
                    bounded(
                        &tx.resource_bounds,
                        tx.tip,
                        tx.nonce_data_availability_mode,
                        tx.fee_data_availability_mode,
                    ),
                ),
                paymaster_data: Some(&tx.paymaster_data),
                account_deployment_data: Some(&tx.account_deployment_data),
                chain_id: tx.chain_id.0,
                nonce: Some(tx.nonce),
                is_query,
            },
        }
    }
}

impl L1HandlerTx {
    /// What the hash of the transaction is computed from.
    pub open spec fn hash_input(self) -> TxHashInput<'static> {
        TxHashInput {
            kind: HashedKind::L1Handler {
                version: self.version,
                entry_point_selector: self.entry_point_selector,
            },
            version: 0,
            address: self.contract_address.0,
            calldata: Some(&self.calldata),
            fee: None,
            paymaster_data: None,
            account_deployment_data: None,
            chain_id: self.chain_id.0,
            nonce: Some(self.nonce),
            is_query: false,
        }
    }

    /// What the hash of the transaction is computed from.
    pub fn calculate_hash(&self) -> (r: TxHashInput<'_>)
        ensures
            r == self.hash_input(),
    {
        TxHashInput {
            kind: HashedKind::L1Handler {
                version: self.version,
                entry_point_selector: self.entry_point_selector,
            },
            version: 0,
            address: self.contract_address.0,
            calldata: Some(&self.calldata),
            fee: None,
            paymaster_data: None,
            account_deployment_data: None,
            chain_id: self.chain_id.0,
            nonce: Some(self.nonce),
            is_query: false,
        }
    }
}

impl DeployAccountTx {
    /// The address of the account that the transaction deploys.
    pub open spec fn deployed(self) -> ContractAddress {
        match self {
            DeployAccountTx::V1(tx) => tx.contract_address,
            DeployAccountTx::V3(tx) => tx.contract_address,
        }
    }

    pub fn contract_address(&self) -> (address: ContractAddress)
        ensures
            address == self.deployed(),
    {
        match self {
            DeployAccountTx::V1(tx) => tx.contract_address,
            DeployAccountTx::V3(tx) => tx.contract_address,
        }
    }

    /// What the hash of the transaction is computed from.
    pub open spec fn hash_input(self, is_query: bool) -> TxHashInput<'static> {
        match self {
            DeployAccountTx::V1(tx) => TxHashInput {
                kind: HashedKind::DeployAccount {
                    class_hash: tx.class_hash,
                    contract_address_salt: tx.contract_address_salt,
                },
                version: 1,
                address: tx.contract_address.0,
                calldata: Some(&tx.constructor_calldata),
                fee: Some(FeeTerms::MaxFee(tx.max_fee)),
                paymaster_data: None,
                account_deployment_data: None,
                chain_id: tx.chain_id.0,
                nonce: Some(tx.nonce),
                is_query,
            },
            DeployAccountTx::V3(tx) => TxHashInput {
                kind: HashedKind::DeployAccount {
                    class_hash: tx.class_hash,
                    contract_address_salt: tx.contract_address_salt,
                },
                version: 3,
                address: tx.contract_address.0,
                calldata: Some(&tx.constructor_calldata),
                fee: Some(
                    bounded_terms(
                        tx.resource_bounds,
                        tx.tip,
                        tx.nonce_data_availability_mode,
                        tx.fee_data_availability_mode,
                    ),
                ),
                paymaster_data: Some(&tx.paymaster_data),
                account_deployment_data: None,
                chain_id: tx.chain_id.0,
                nonce: Some(tx.nonce),
                is_query,
            },
        }
    }

    /// What the hash of the transaction is computed from.
    pub fn calculate_hash(&self, is_query: bool) -> (r: TxHashInput<'_>)
        ensures
            r == self.hash_input(is_query),
    {
        match self {
            DeployAccountTx::V1(tx) => TxHashInput {
                kind: HashedKind::DeployAccount {
                    class_hash: tx.class_hash,
                    contract_address_salt: tx.contract_address_salt,
                },
                version: 1,
                address: tx.contract_address.0,
                calldata: Some(&tx.constructor_calldata),
                fee: Some(FeeTerms::MaxFee(tx.max_fee)),
                paymaster_data: None,
                account_deployment_data: None,
                chain_id: tx.chain_id.0,
                nonce: Some(tx.nonce),
                is_query,
            },
            DeployAccountTx::V3(tx) => TxHashInput {
                kind: HashedKind::DeployAccount {
                    class_hash: tx.class_hash,
                    contract_address_salt: tx.contract_address_salt,
                },
                version: 3,
                address: tx.contract_address.0,
                calldata: Some(&tx.constructor_calldata),
                fee: Some(
                    bounded(
                        &tx.resource_bounds,
                        tx.tip,
                        tx.nonce_data_availability_mode,
                        tx.fee_data_availability_mode,
                    ),
                ),
                paymaster_data: Some(&tx.paymaster_data),
                account_deployment_data: None,
                chain_id: tx.chain_id.0,
                nonce: Some(tx.nonce),
                is_query,
            },
        }
    }
}

impl ExecutableTx {
    /// The type of the transaction.
    pub open spec fn kind(self) -> TxType {
        match self {
            ExecutableTx::Invoke(_) => TxType::Invoke,
            ExecutableTx::Declare(_) => TxType::Declare,
            ExecutableTx::L1Handler(_) => TxType::L1Handler,
            ExecutableTx::DeployAccount(_) => TxType::DeployAccount,
        }
    }

    /// What the hash of the transaction is computed from. The hash of an
    /// L1 handler transaction is the same for a query.
    pub open spec fn hash_input(self, is_query: bool) -> Option<TxHashInput<'static>> {
        match self {
            ExecutableTx::L1Handler(tx) => Some(tx.hash_input()),
            ExecutableTx::Invoke(tx) => tx.hash_input(is_query),
            ExecutableTx::Declare(tx) => Some(tx.transaction.hash_input(is_query)),
            ExecutableTx::DeployAccount(tx) => Some(tx.hash_input(is_query)),
        }
    }

    /// What the hash of the transaction is computed from.
    pub fn calculate_hash(&self, is_query: bool) -> (r: Option<TxHashInput<'_>>)
        ensures
            r == self.hash_input(is_query),
    {
        match self {
            ExecutableTx::L1Handler(tx) => Some(tx.calculate_hash()),
            ExecutableTx::Invoke(tx) => tx.calculate_hash(is_query),
            ExecutableTx::Declare(tx) => Some(tx.transaction.calculate_hash(is_query)),
            ExecutableTx::DeployAccount(tx) => Some(tx.calculate_hash(is_query)),
        }
    }

    pub fn tx_type(&self) -> (t: TxType)
        ensures
            t == self.kind(),
    {
        match self {
            ExecutableTx::Invoke(_) => TxType::Invoke,
            ExecutableTx::Declare(_) => TxType::Declare,
            ExecutableTx::L1Handler(_) => TxType::L1Handler,
            ExecutableTx::DeployAccount(_) => TxType::DeployAccount,
        }
    }
}

} // verus!
