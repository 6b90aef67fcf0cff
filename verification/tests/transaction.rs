use katana_storage::config::{DevConfig, FixedL1GasPriceConfig};
use katana_storage::felt::{ContractAddress, Felt};
use katana_storage::gas::{GasPrice, GasPrices};
use katana_storage::models::ContractClass;
use katana_storage::oracle::{
    FixedPriceOracle, GasPriceOracle, ResourcePrice, SampleError, SampledPriceOracle,
    SampledPrices, Sampler, StarknetSampler, WorkerSchedule,
};
use katana_storage::transaction::{
    AllResourceBoundsMapping, ChainId, DataAvailabilityMode, DeclareTx, DeclareTxV0, DeclareTxV1,
    DeclareTxV2, DeclareTxV3, DeclareTxWithClass, DeployAccountTx, DeployAccountTxV1,
    DeployAccountTxV3, DeployTx, ExecutableTx, FeeTerms, HashedKind, InvokeTx, InvokeTxV0,
    InvokeTxV1, InvokeTxV3, L1HandlerTx, ResourceBounds, ResourceBoundsMapping, Tx, TxType,
};

fn felt(n: u64) -> Felt {
    Felt::from_u64(n)
}

fn address(n: u64) -> ContractAddress {
    ContractAddress::new(felt(n))
}

fn bounds(amount: u64, price: u128) -> ResourceBounds {
    ResourceBounds { max_amount: amount, max_price_per_unit: price }
}

fn invoke_v3(resource_bounds: ResourceBoundsMapping) -> InvokeTxV3 {
    InvokeTxV3 {
        chain_id: ChainId(felt(0x4b4154)),
        sender_address: address(1),
        nonce: felt(2),
        calldata: vec![felt(3), felt(4)],
        signature: vec![felt(5)],
        resource_bounds,
        tip: 6,
        paymaster_data: vec![felt(7)],
        account_deployment_data: vec![felt(8)],
        nonce_data_availability_mode: DataAvailabilityMode::L1,
        fee_data_availability_mode: DataAvailabilityMode::L2,
    }
}

#[test]
fn invoke_hash_input() {
    let v0 = InvokeTx::V0(InvokeTxV0 {
        contract_address: address(1),
        entry_point_selector: felt(2),
        calldata: vec![],
        signature: vec![],
        max_fee: 0,
    });
    assert!(v0.calculate_hash(false).is_none());

    let v1 = InvokeTx::V1(InvokeTxV1 {
        chain_id: ChainId(felt(9)),
        sender_address: address(1),
        nonce: felt(2),
        calldata: vec![felt(3)],
        signature: vec![],
        max_fee: 77,
    });
    let input = v1.calculate_hash(true).unwrap();
    assert_eq!(input.kind, HashedKind::Invoke);
    assert_eq!(input.version, 1);
    assert_eq!(input.address, felt(1));
    assert_eq!(input.calldata, Some(&vec![felt(3)]));
    assert_eq!(input.fee, Some(FeeTerms::MaxFee(77)));
    assert_eq!(input.chain_id, felt(9));
    assert_eq!(input.nonce, Some(felt(2)));
    assert!(input.is_query);
    assert_eq!(input.paymaster_data, None);

    let l1_only = InvokeTx::V3(invoke_v3(ResourceBoundsMapping::L1Gas(bounds(10, 20))));
    let input = l1_only.calculate_hash(false).unwrap();
    assert_eq!(input.version, 3);
    assert_eq!(
        input.fee,
        Some(FeeTerms::Bounded {
            tip: 6,
            l1_gas: bounds(10, 20),
            l2_gas: bounds(0, 0),
            l1_data_gas: None,
            nonce_data_availability_mode: DataAvailabilityMode::L1,
            fee_data_availability_mode: DataAvailabilityMode::L2,
        })
    );
    assert_eq!(input.paymaster_data, Some(&vec![felt(7)]));
    assert_eq!(input.account_deployment_data, Some(&vec![felt(8)]));
    assert!(!input.is_query);

    let all = InvokeTx::V3(invoke_v3(ResourceBoundsMapping::All(AllResourceBoundsMapping {
        l1_gas: bounds(1, 2),
        l2_gas: bounds(3, 4),
        l1_data_gas: bounds(5, 6),
    })));
    let input = all.calculate_hash(false).unwrap();
    assert_eq!(
        input.fee,
        Some(FeeTerms::Bounded {
            tip: 6,
            l1_gas: bounds(1, 2),
            l2_gas: bounds(3, 4),
            l1_data_gas: Some(bounds(5, 6)),
            nonce_data_availability_mode: DataAvailabilityMode::L1,
            fee_data_availability_mode: DataAvailabilityMode::L2,
        })
    );
}

fn declare_v2() -> DeclareTx {
    DeclareTx::V2(DeclareTxV2 {
        chain_id: ChainId(felt(1)),
        sender_address: address(2),
        nonce: felt(3),
        signature: vec![],
        class_hash: felt(4),
        compiled_class_hash: felt(5),
        max_fee: 6,
    })
}

#[test]
fn declare_hash_input_and_class_hash() {
    let v0 = DeclareTx::V0(DeclareTxV0 {
        chain_id: ChainId(felt(1)),
        sender_address: address(2),
        signature: vec![],
        class_hash: felt(40),
        max_fee: 6,
    });
    assert_eq!(v0.class_hash(), felt(40));
    let input = v0.calculate_hash(false);
    assert_eq!(input.version, 0);
    assert_eq!(input.nonce, None);
    assert_eq!(input.kind, HashedKind::Declare { class_hash: felt(40), compiled_class_hash: None });

    let v1 = DeclareTx::V1(DeclareTxV1 {
        chain_id: ChainId(felt(1)),
        sender_address: address(2),
        nonce: felt(3),
        signature: vec![],
        class_hash: felt(41),
        max_fee: 6,
    });
    assert_eq!(v1.class_hash(), felt(41));
    assert_eq!(v1.calculate_hash(false).nonce, Some(felt(3)));

    let v2 = declare_v2();
    assert_eq!(v2.class_hash(), felt(4));
    let input = v2.calculate_hash(true);
    assert_eq!(input.version, 2);
    assert_eq!(
        input.kind,
        HashedKind::Declare { class_hash: felt(4), compiled_class_hash: Some(felt(5)) }
    );
    assert_eq!(input.address, felt(2));
    assert_eq!(input.fee, Some(FeeTerms::MaxFee(6)));
    assert!(input.is_query);

    let v3 = DeclareTx::V3(DeclareTxV3 {
        chain_id: ChainId(felt(1)),
        sender_address: address(2),
        nonce: felt(3),
        signature: vec![],
        class_hash: felt(43),
        compiled_class_hash: felt(5),
        resource_bounds: ResourceBoundsMapping::L1Gas(bounds(1, 1)),
        tip: 0,
        paymaster_data: vec![],
        account_deployment_data: vec![felt(1)],
        nonce_data_availability_mode: DataAvailabilityMode::L2,
        fee_data_availability_mode: DataAvailabilityMode::L1,
    });
    assert_eq!(v3.class_hash(), felt(43));
    let input = v3.calculate_hash(false);
    assert_eq!(input.version, 3);
    assert_eq!(input.account_deployment_data, Some(&vec![felt(1)]));

    let with_class = DeclareTxWithClass::new(declare_v2(), ContractClass::new(vec![1]));
    assert_eq!(with_class.transaction, declare_v2());
    assert_eq!(*with_class.class, ContractClass::new(vec![1]));
}

#[test]
fn deploy_account_hash_input_and_address() {
    let v1 = DeployAccountTx::V1(DeployAccountTxV1 {
        chain_id: ChainId(felt(1)),
        nonce: felt(2),
        signature: vec![],
        class_hash: felt(3),
        contract_address: address(4),
        contract_address_salt: felt(5),
        constructor_calldata: vec![felt(6)],
        max_fee: 7,
    });
    assert_eq!(v1.contract_address(), address(4));
    let input = v1.calculate_hash(false);
    assert_eq!(
        input.kind,
        HashedKind::DeployAccount { class_hash: felt(3), contract_address_salt: felt(5) }
    );
    assert_eq!(input.address, felt(4));
    assert_eq!(input.calldata, Some(&vec![felt(6)]));
    assert_eq!(input.version, 1);

    let v3 = DeployAccountTx::V3(DeployAccountTxV3 {
        chain_id: ChainId(felt(1)),
        nonce: felt(2),
        signature: vec![],
        class_hash: felt(3),
        contract_address: address(44),
        contract_address_salt: felt(5),
        constructor_calldata: vec![],
        resource_bounds: ResourceBoundsMapping::L1Gas(bounds(8, 9)),
        tip: 1,
        paymaster_data: vec![felt(2)],
        nonce_data_availability_mode: DataAvailabilityMode::L1,
        fee_data_availability_mode: DataAvailabilityMode::L1,
    });
    assert_eq!(v3.contract_address(), address(44));
    let input = v3.calculate_hash(true);
    assert_eq!(input.version, 3);
    assert_eq!(input.account_deployment_data, None);
    assert_eq!(input.paymaster_data, Some(&vec![felt(2)]));
}

#[test]
fn transaction_types_and_versions() {
    let l1 = L1HandlerTx {
        nonce: felt(1),
        chain_id: ChainId(felt(2)),
        paid_fee_on_l1: 3,
        version: felt(0),
        message_hash: [7u8; 32],
        calldata: vec![felt(4)],
        contract_address: address(5),
        entry_point_selector: felt(6),
    };
    let input = l1.calculate_hash();
    assert_eq!(
        input.kind,
        HashedKind::L1Handler { version: felt(0), entry_point_selector: felt(6) }
    );
    assert_eq!(input.fee, None);
    assert!(!input.is_query);

    let deploy = DeployTx {
        contract_address: felt(1),
        contract_address_salt: felt(2),
        constructor_calldata: vec![],
        class_hash: felt(3),
        version: felt(1),
    };
    assert_eq!(Tx::Deploy(deploy.clone()).version(), felt(1));
    assert_eq!(Tx::Deploy(deploy).tx_type(), TxType::Deploy);
    assert_eq!(Tx::L1Handler(l1.clone()).version(), felt(0));
    assert_eq!(Tx::L1Handler(l1.clone()).tx_type(), TxType::L1Handler);
    assert_eq!(Tx::Declare(declare_v2()).version(), Felt::two());
    assert_eq!(Tx::Declare(declare_v2()).tx_type(), TxType::Declare);
    let invoke = InvokeTx::V3(invoke_v3(ResourceBoundsMapping::L1Gas(bounds(1, 1))));
    assert_eq!(Tx::Invoke(invoke.clone()).version(), Felt::three());
    assert_eq!(Tx::Invoke(invoke.clone()).tx_type(), TxType::Invoke);

    let executable = ExecutableTx::Invoke(invoke);
    assert_eq!(executable.tx_type(), TxType::Invoke);
    assert_eq!(executable.calculate_hash(true).unwrap().is_query, true);
    let executable = ExecutableTx::L1Handler(l1);
    assert_eq!(executable.tx_type(), TxType::L1Handler);
    assert_eq!(executable.calculate_hash(true).unwrap().is_query, false);
    let executable =
        ExecutableTx::Declare(DeclareTxWithClass::new(declare_v2(), ContractClass::new(vec![])));
    assert_eq!(executable.tx_type(), TxType::Declare);
    assert_eq!(executable.calculate_hash(false).unwrap().version, 2);

    assert_eq!(TxType::default(), TxType::Invoke);
    assert_eq!(TxType::Invoke.as_str(), "INVOKE");
    assert_eq!(TxType::Declare.as_str(), "DECLARE");
    assert_eq!(TxType::DeployAccount.as_str(), "DEPLOY_ACCOUNT");
    assert_eq!(TxType::L1Handler.as_str(), "L1_HANDLER");
    assert_eq!(TxType::Deploy.as_str(), "DEPLOY");
}

fn prices(eth: u128, strk: u128) -> GasPrices {
    GasPrices::new(GasPrice::new(eth).unwrap(), GasPrice::new(strk).unwrap())
}

#[test]
fn fixed_oracle_and_worker() {
    let oracle = GasPriceOracle::create_for_testing();
    assert_eq!(oracle.l1_gas_prices(), prices(20_000_000_000, 20_000_000_000));
    assert_eq!(oracle.l2_gas_prices(), prices(20_000_000_000, 20_000_000_000));
    assert_eq!(oracle.l1_data_gas_prices(), prices(1_000_000, 1_000_000));
    assert_eq!(oracle.run_worker(), None);

    let oracle = GasPriceOracle::fixed(prices(1, 2), prices(3, 4), prices(5, 6));
    assert_eq!(oracle.l2_gas_prices(), prices(1, 2));
    assert_eq!(oracle.l1_gas_prices(), prices(3, 4));
    assert_eq!(oracle.l1_data_gas_prices(), prices(5, 6));
    let fixed = FixedPriceOracle::new(prices(1, 2), prices(3, 4), prices(5, 6));
    assert_eq!(*fixed.l2_gas_prices(), prices(1, 2));
    assert_eq!(*fixed.l1_gas_prices(), prices(3, 4));
    assert_eq!(*fixed.l1_data_gas_prices(), prices(5, 6));

    let sampled = GasPriceOracle::sampled_starknet(String::from("http://localhost:5050"));
    assert_eq!(
        sampled.run_worker(),
        Some(WorkerSchedule { interval_secs: 60, min_retry_delay_secs: 3 })
    );
    assert_eq!(sampled.l1_gas_prices(), GasPrices::min());
    let sampled = GasPriceOracle::sampled_ethereum(String::from("http://localhost:8545"));
    assert!(matches!(
        &sampled,
        GasPriceOracle::Sampled(SampledPriceOracle { sampler: Sampler::Ethereum(_), .. })
    ));
    assert_eq!(StarknetSampler::new(5u8).provider, 5);
}

#[test]
fn sampled_oracle_averages_what_it_records() {
    let mut oracle = SampledPriceOracle::new(Sampler::starknet(String::from("node")));
    assert_eq!(oracle.avg_l1_gas_prices(), GasPrices::min());
    oracle.record(SampledPrices {
        l2_gas_prices: prices(10, 11),
        l1_gas_prices: prices(100, 150),
        l1_data_gas_prices: prices(1, 1),
    });
    oracle.record(SampledPrices {
        l2_gas_prices: prices(20, 22),
        l1_gas_prices: prices(200, 250),
        l1_data_gas_prices: prices(2, 1),
    });
    assert_eq!(oracle.avg_l2_gas_prices(), prices(15, 17));
    assert_eq!(oracle.avg_l1_gas_prices(), prices(150, 200));
    assert_eq!(oracle.avg_l1_data_gas_prices(), prices(2, 1));
    assert_eq!(oracle.samples.l1_gas_prices.0.capacity(), 60);
}

#[test]
fn samples_from_network_prices() {
    let price = |wei: u64, fri: u64| ResourcePrice { price_in_wei: felt(wei), price_in_fri: felt(fri) };
    assert_eq!(
        SampledPrices::from_starknet_block(price(1, 2), price(3, 4), price(5, 6)),
        Ok(SampledPrices {
            l1_gas_prices: prices(1, 2),
            l2_gas_prices: prices(3, 4),
            l1_data_gas_prices: prices(5, 6),
        })
    );
    assert_eq!(
        SampledPrices::from_starknet_block(price(1, 2), price(3, 0), price(5, 6)),
        Err(SampleError::ZeroPrice)
    );
    let large = ResourcePrice { price_in_wei: Felt::new(1, 0).unwrap(), price_in_fri: felt(1) };
    assert_eq!(
        SampledPrices::from_starknet_block(large, price(3, 4), price(0, 6)),
        Err(SampleError::PriceTooLarge)
    );
    assert_eq!(
        SampledPrices::from_starknet_block(price(1, 1), price(3, 4), large),
        Err(SampleError::PriceTooLarge)
    );

    assert_eq!(
        SampledPrices::from_fee_history(&[5, 7], &[1, 2, 3]),
        Ok(SampledPrices {
            l1_gas_prices: prices(7, 7),
            l2_gas_prices: prices(7, 7),
            l1_data_gas_prices: prices(3, 3),
        })
    );
    assert_eq!(SampledPrices::from_fee_history(&[], &[1]), Err(SampleError::NoFeeHistory));
    assert_eq!(SampledPrices::from_fee_history(&[1], &[]), Err(SampleError::NoFeeHistory));
    assert_eq!(SampledPrices::from_fee_history(&[1, 0], &[1]), Err(SampleError::ZeroPrice));
    assert_eq!(SampledPrices::from_fee_history(&[1], &[0]), Err(SampleError::ZeroPrice));
}

#[test]
fn development_configuration() {
    let config = DevConfig::default();
    assert!(config.fee);
    assert!(config.account_validation);
    assert_eq!(config.fixed_gas_prices, None);
    let fixed = FixedL1GasPriceConfig::default();
    assert_eq!(fixed.l2_gas_prices, prices(20_000_000_000, 20_000_000_000));
    assert_eq!(fixed.l1_gas_prices, prices(20_000_000_000, 20_000_000_000));
    assert_eq!(fixed.l1_data_gas_prices, prices(1_000_000, 1_000_000));
    assert_eq!(GasPrice::at_least_min(0), GasPrice::min());
    assert_eq!(GasPrice::at_least_min(9).get(), 9);
}
