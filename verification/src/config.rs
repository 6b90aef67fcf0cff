//! Development configuration of a node.

use vstd::prelude::*;
use crate::gas::{GasPrice, GasPrices};
use crate::oracle::{both, DEFAULT_L1_DATA_GAS_PRICE, DEFAULT_L1_GAS_PRICE, DEFAULT_L2_GAS_PRICE};

verus! {

/// Fixed gas prices for development.
#[derive(Debug, Clone, Copy, PartialEq, Eq, Structural)]
pub struct FixedL1GasPriceConfig {
    pub l2_gas_prices: GasPrices,
    pub l1_gas_prices: GasPrices,
    pub l1_data_gas_prices: GasPrices,
}

impl Default for FixedL1GasPriceConfig {
    fn default() -> (config: Self)
        ensures
            both(config.l2_gas_prices, 20_000_000_000),
            both(config.l1_gas_prices, 20_000_000_000),
            both(config.l1_data_gas_prices, 1_000_000),
    {
        let l2 = GasPrice::at_least_min(DEFAULT_L2_GAS_PRICE);
        let l1 = GasPrice::at_least_min(DEFAULT_L1_GAS_PRICE);
        let l1_data = GasPrice::at_least_min(DEFAULT_L1_DATA_GAS_PRICE);
        FixedL1GasPriceConfig {
            l2_gas_prices: GasPrices::new(l2, l2),
            l1_gas_prices: GasPrices::new(l1, l1),
            l1_data_gas_prices: GasPrices::new(l1_data, l1_data),
        }
    }
}

/// Development configuration.
#[derive(Debug, Clone, Copy, PartialEq, Eq, Structural)]
pub struct DevConfig {
    /// Whether to enable paying fees for transactions.
    ///
    /// If disabled, the transaction's sender will not be charged for the transaction. Any fee
    /// related checks will be skipped.
    pub fee: bool,
    /// Whether to enable account validation when sending transaction.
    ///
    /// If disabled, the transaction's sender validation logic will not be executed in any
    /// circumstances. Sending a transaction with invalid signatures, will be considered valid.
    pub account_validation: bool,
    /// Fixed L1 gas prices for development.
    ///
    /// These are the prices that will be used for calculating the gas fee for transactions.
    pub fixed_gas_prices: Option<FixedL1GasPriceConfig>,
}

impl Default for DevConfig {
    fn default() -> (config: Self)
        ensures
            config == (DevConfig { fee: true, account_validation: true, fixed_gas_prices: None }),
    {
        DevConfig { fee: true, account_validation: true, fixed_gas_prices: None }
    }
}

} // verus!
