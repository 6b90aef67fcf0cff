//! The gas price oracle: fixed prices, or the average of sampled prices.

use vstd::prelude::*;
use crate::felt::Felt;
use crate::gas::{is_average, pushed, GasPrice, GasPrices, GasPricesBuffer};

verus! {

/// Default price of L2 gas in either token: 20 * 10^9.
pub const DEFAULT_L2_GAS_PRICE: u128 = 20_000_000_000;

/// Default price of L1 gas in either token: 20 * 10^9.
pub const DEFAULT_L1_GAS_PRICE: u128 = 20_000_000_000;

/// Default price of L1 data gas in either token: 10^6.
pub const DEFAULT_L1_DATA_GAS_PRICE: u128 = 1_000_000;

/// The number of samples of which the average is taken.
pub const SAMPLE_SIZE: usize = 60;

/// The seconds between two samples.
pub const DEFAULT_SAMPLING_INTERVAL_SECS: u64 = 60;

/// The seconds before a failed sample is first tried again.
pub const MIN_RETRY_DELAY_SECS: u64 = 3;

/// Both prices are `amount`.
pub open spec fn both(prices: GasPrices, amount: u128) -> bool {
    prices.eth.value() == amount && prices.strk.value() == amount
}

/// The prices of `amount` in both tokens; the lowest prices where
/// `amount` is zero.
fn uniform(amount: u128) -> (prices: GasPrices)
    ensures
        amount != 0 ==> both(prices, amount),
        amount == 0 ==> both(prices, 1),
{
    let price = GasPrice::at_least_min(amount);
    GasPrices::new(price, price)
}

/// An oracle of prices that never change.
#[derive(Debug, Clone, Copy, PartialEq, Eq, Structural)]
pub struct FixedPriceOracle {
    l2_gas_prices: GasPrices,
    l1_gas_prices: GasPrices,
    l1_data_gas_prices: GasPrices,
}

impl FixedPriceOracle {
    pub closed spec fn l2(self) -> GasPrices {
        self.l2_gas_prices
    }

    pub closed spec fn l1(self) -> GasPrices {
        self.l1_gas_prices
    }

    pub closed spec fn l1_data(self) -> GasPrices {
        self.l1_data_gas_prices
    }

    pub fn new(l2_gas_prices: GasPrices, l1_gas_prices: GasPrices, l1_data_gas_prices: GasPrices) -> (oracle:
        Self)
        ensures
            oracle.l2() == l2_gas_prices,
            oracle.l1() == l1_gas_prices,
            oracle.l1_data() == l1_data_gas_prices,
    {
        FixedPriceOracle { l1_gas_prices, l2_gas_prices, l1_data_gas_prices }
    }

    pub fn l1_gas_prices(&self) -> (prices: &GasPrices)
        ensures
            *prices == self.l1(),
    {
        &self.l1_gas_prices
    }

    pub fn l2_gas_prices(&self) -> (prices: &GasPrices)
        ensures
            *prices == self.l2(),
    {
        &self.l2_gas_prices
    }

    pub fn l1_data_gas_prices(&self) -> (prices: &GasPrices)
        ensures
            *prices == self.l1_data(),
    {
        &self.l1_data_gas_prices
    }
}

impl Default for FixedPriceOracle {
    fn default() -> (oracle: Self)
        ensures
            both(oracle.l1(), 20_000_000_000),
            both(oracle.l2(), 20_000_000_000),
            both(oracle.l1_data(), 1_000_000),
    {
        FixedPriceOracle {
            l1_gas_prices: uniform(DEFAULT_L1_GAS_PRICE),
            l2_gas_prices: uniform(DEFAULT_L2_GAS_PRICE),
            l1_data_gas_prices: uniform(DEFAULT_L1_DATA_GAS_PRICE),
        }
    }
}

/// The gas prices of one sample.
#[derive(Debug, Clone, Copy, PartialEq, Eq, Structural)]
pub struct SampledPrices {
    pub l2_gas_prices: GasPrices,
    pub l1_gas_prices: GasPrices,
    pub l1_data_gas_prices: GasPrices,
}

/// Why a block's prices are no sample.
#[derive(Debug, Clone, Copy, PartialEq, Eq, Structural)]
pub enum SampleError {
    /// A price is zero.
    ZeroPrice,
    /// A price does not fit in 128 bits.
    PriceTooLarge,
    /// The fee history names no price.
    NoFeeHistory,
}

/// The price of a resource in both tokens, as a network reports it.
#[derive(Debug, Clone, Copy, PartialEq, Eq, Structural)]
pub struct ResourcePrice {
    pub price_in_wei: Felt,
    pub price_in_fri: Felt,
}

/// The gas price that a felt names: the felt has to fit in 128 bits and
/// must not be zero.
pub open spec fn price_of(felt: Felt) -> Result<u128, SampleError> {
    if felt.hi() != 0 {
        Err(SampleError::PriceTooLarge)
    } else if felt.lo() == 0 {
        Err(SampleError::ZeroPrice)
    } else {
        Ok(felt.lo())
    }
}

/// The gas price that a felt names.
fn felt_price(felt: Felt) -> (r: Result<GasPrice, SampleError>)
    ensures
        match r {
            Ok(price) => price_of(felt) == Ok::<u128, SampleError>(price.value()),
            Err(e) => price_of(felt) == Err::<u128, SampleError>(e),
        },
{
    let (hi, lo) = felt.to_halves();
    if hi != 0 {
        return Err(SampleError::PriceTooLarge);
    }
    match GasPrice::new(lo) {
        Ok(price) => Ok(price),
        Err(_) => Err(SampleError::ZeroPrice),
    }
}

/// The gas prices that a reported price names, or the error of its price
/// in wei, or else of its price in fri.
fn resource_prices(price: ResourcePrice) -> (r: Result<GasPrices, SampleError>)
    ensures
        match r {
            Ok(prices) => price_of(price.price_in_wei) == Ok::<u128, SampleError>(
                prices.eth.value(),
            ) && price_of(price.price_in_fri) == Ok::<u128, SampleError>(prices.strk.value()),
            Err(e) => price_of(price.price_in_wei) == Err::<u128, SampleError>(e) || (price_of(
                price.price_in_wei,
            ) is Ok && price_of(price.price_in_fri) == Err::<u128, SampleError>(e)),
        },
{
    let eth = match felt_price(price.price_in_wei) {
        Ok(p) => p,
        Err(e) => {
            return Err(e);
        },
    };
    let strk = match felt_price(price.price_in_fri) {
        Ok(p) => p,
        Err(e) => {
            return Err(e);
        },
    };
    Ok(GasPrices::new(eth, strk))
}

impl SampledPrices {
    /// The sample of a Starknet block, from the prices in its header. The
    /// L2 price is read first, then the L1 price, then the L1 data price;
    /// the first price that is none decides the error.
    pub fn from_starknet_block(
        l1_gas_price: ResourcePrice,
        l2_gas_price: ResourcePrice,
        l1_data_gas_price: ResourcePrice,
    ) -> (r: Result<SampledPrices, SampleError>)
        ensures
            r is Ok <==> price_of(l1_gas_price.price_in_wei) is Ok && price_of(
                l1_gas_price.price_in_fri,
            ) is Ok && price_of(l2_gas_price.price_in_wei) is Ok && price_of(
                l2_gas_price.price_in_fri,
            ) is Ok && price_of(l1_data_gas_price.price_in_wei) is Ok && price_of(
                l1_data_gas_price.price_in_fri,
            ) is Ok,
            r matches Ok(s) ==> price_of(l1_gas_price.price_in_wei) == Ok::<u128, SampleError>(
                s.l1_gas_prices.eth.value(),
            ) && price_of(l1_gas_price.price_in_fri) == Ok::<u128, SampleError>(
                s.l1_gas_prices.strk.value(),
            ) && price_of(l2_gas_price.price_in_wei) == Ok::<u128, SampleError>(
                s.l2_gas_prices.eth.value(),
            ) && price_of(l2_gas_price.price_in_fri) == Ok::<u128, SampleError>(
                s.l2_gas_prices.strk.value(),
            ) && price_of(l1_data_gas_price.price_in_wei) == Ok::<u128, SampleError>(
                s.l1_data_gas_prices.eth.value(),
            ) && price_of(l1_data_gas_price.price_in_fri) == Ok::<u128, SampleError>(
                s.l1_data_gas_prices.strk.value(),
            ),
    {
        let l2_gas_prices = match resource_prices(l2_gas_price) {
            Ok(p) => p,
            Err(e) => {
                return Err(e);
            },
        };
        let l1_gas_prices = match resource_prices(l1_gas_price) {
            Ok(p) => p,
            Err(e) => {
                return Err(e);
            },
        };
        let l1_data_gas_prices = match resource_prices(l1_data_gas_price) {
            Ok(p) => p,
            Err(e) => {
                return Err(e);
            },
        };
        Ok(SampledPrices { l2_gas_prices, l1_gas_prices, l1_data_gas_prices })
    }

    /// The sample of an Ethereum fee history: the last base fee per gas is
    /// the L1 and the L2 price, the last base fee per blob gas the L1 data
    /// price, each in both tokens alike.
    pub fn from_fee_history(base_fee_per_gas: &[u128], base_fee_per_blob_gas: &[u128]) -> (r: Result<
        SampledPrices,
        SampleError,
    >)
        ensures
            r is Ok <==> base_fee_per_gas@.len() > 0 && base_fee_per_blob_gas@.len() > 0
                && base_fee_per_gas@.last() != 0 && base_fee_per_blob_gas@.last() != 0,
            r matches Ok(s) ==> both(s.l1_gas_prices, base_fee_per_gas@.last()) && both(
                s.l2_gas_prices,
                base_fee_per_gas@.last(),
            ) && both(s.l1_data_gas_prices, base_fee_per_blob_gas@.last()),
            r matches Err(e) ==> e == if base_fee_per_gas@.len() == 0 || base_fee_per_blob_gas@.len()
                == 0 {
                SampleError::NoFeeHistory
            } else {
                SampleError::ZeroPrice
            },
    {
        let n = base_fee_per_gas.len();
        let m = base_fee_per_blob_gas.len();
        if n == 0 || m == 0 {
            return Err(SampleError::NoFeeHistory);
        }
        let gas = base_fee_per_gas[n - 1];
        let blob = base_fee_per_blob_gas[m - 1];
        let eth_price = match GasPrice::new(gas) {
            Ok(p) => p,
            Err(_) => {
                return Err(SampleError::ZeroPrice);
            },
        };
        let l1_gas_prices = GasPrices::new(eth_price, eth_price);
        let blob_price = match GasPrice::new(blob) {
            Ok(p) => p,
            Err(_) => {
                return Err(SampleError::ZeroPrice);
            },
        };
        let l1_data_gas_prices = GasPrices::new(blob_price, blob_price);
        let l2_gas_prices = l1_gas_prices;
        Ok(SampledPrices { l2_gas_prices, l1_gas_prices, l1_data_gas_prices })
    }
}

/// The samples of the three prices.
#[derive(Debug)]
pub struct Samples {
    pub l2_gas_prices: GasPricesBuffer,
    pub l1_gas_prices: GasPricesBuffer,
    pub l1_data_gas_prices: GasPricesBuffer,
}

impl Samples {
    pub fn new(size: usize) -> (samples: Self)
        ensures
            samples.l2_gas_prices.0@.len() == 0,
            samples.l1_gas_prices.0@.len() == 0,
            samples.l1_data_gas_prices.0@.len() == 0,
            samples.l2_gas_prices.0.limit() == size,
            samples.l1_gas_prices.0.limit() == size,
            samples.l1_data_gas_prices.0.limit() == size,
    {
        Samples {
            l2_gas_prices: GasPricesBuffer::new(size),
            l1_gas_prices: GasPricesBuffer::new(size),
            l1_data_gas_prices: GasPricesBuffer::new(size),
        }
    }
}

/// A sampler of Starknet gas prices that asks the given provider.
#[derive(Debug)]
pub struct StarknetSampler<P> {
    pub provider: P,
}

impl<P> StarknetSampler<P> {
    /// Creates a new sampler using the given provider.
    pub fn new(provider: P) -> (sampler: Self)
        ensures
            sampler.provider == provider,
    {
        StarknetSampler { provider }
    }
}

/// A sampler of Ethereum gas prices that asks the given provider.
#[derive(Debug)]
pub struct EthSampler<P> {
    pub provider: P,
}

impl<P> EthSampler<P> {
    pub fn new(provider: P) -> (sampler: Self)
        ensures
            sampler.provider == provider,
    {
        EthSampler { provider }
    }
}

/// Gas oracle that samples prices from different blockchain networks,
/// each named by the address of its endpoint.
#[derive(Debug)]
pub enum Sampler {
    /// Samples gas prices from an Ethereum-based network.
    Ethereum(EthSampler<String>),
    /// Samples gas prices from a Starknet-based network.
    Starknet(StarknetSampler<String>),
}

impl Sampler {
    /// Creates a new sampler for Starknet.
    pub fn starknet(url: String) -> (sampler: Self)
        ensures
            sampler == Sampler::Starknet(StarknetSampler { provider: url }),
    {
        Sampler::Starknet(StarknetSampler::new(url))
    }

    /// Creates a new sampler for Ethereum.
    pub fn ethereum(url: String) -> (sampler: Self)
        ensures
            sampler == Sampler::Ethereum(EthSampler { provider: url }),
    {
        Sampler::Ethereum(EthSampler::new(url))
    }
}

/// An oracle of the average of the prices sampled last.
#[derive(Debug)]
pub struct SampledPriceOracle {
    pub samples: Samples,
    pub sampler: Sampler,
}

impl SampledPriceOracle {
    pub fn new(sampler: Sampler) -> (oracle: Self)
        ensures
            oracle.sampler == sampler,
            oracle.samples.l2_gas_prices.0@.len() == 0,
            oracle.samples.l1_gas_prices.0@.len() == 0,
            oracle.samples.l1_data_gas_prices.0@.len() == 0,
            oracle.samples.l2_gas_prices.0.limit() == 60,
            oracle.samples.l1_gas_prices.0.limit() == 60,
            oracle.samples.l1_data_gas_prices.0.limit() == 60,
    {
        SampledPriceOracle { samples: Samples::new(SAMPLE_SIZE), sampler }
    }

    /// Returns the average l2 gas prices of the samples.
    pub fn avg_l2_gas_prices(&self) -> (prices: GasPrices)
        ensures
            is_average(self.samples.l2_gas_prices.0@, prices),
    {
        self.samples.l2_gas_prices.average()
    }

    /// Returns the average l1 gas prices of the samples.
    pub fn avg_l1_gas_prices(&self) -> (prices: GasPrices)
        ensures
            is_average(self.samples.l1_gas_prices.0@, prices),
    {
        self.samples.l1_gas_prices.average()
    }

    /// Returns the average l1 data gas prices of the samples.
    pub fn avg_l1_data_gas_prices(&self) -> (prices: GasPrices)
        ensures
            is_average(self.samples.l1_data_gas_prices.0@, prices),
    {
        self.samples.l1_data_gas_prices.average()
    }

    /// Takes a sample into the three buffers.
    pub fn record(&mut self, prices: SampledPrices)
        ensures
            final(self).sampler == old(self).sampler,
            pushed(
                old(self).samples.l2_gas_prices.0,
                final(self).samples.l2_gas_prices.0,
                prices.l2_gas_prices,
            ),
            pushed(
                old(self).samples.l1_gas_prices.0,
                final(self).samples.l1_gas_prices.0,
                prices.l1_gas_prices,
            ),
            pushed(
                old(self).samples.l1_data_gas_prices.0,
                final(self).samples.l1_data_gas_prices.0,
                prices.l1_data_gas_prices,
            ),
    {
        self.samples.l2_gas_prices.push(prices.l2_gas_prices);
        self.samples.l1_gas_prices.push(prices.l1_gas_prices);
        self.samples.l1_data_gas_prices.push(prices.l1_data_gas_prices);
    }
}

/// How the worker of a sampled oracle runs: how often it samples, and how
/// long it waits at least before it tries a failed sample again.
#[derive(Debug, Clone, Copy, PartialEq, Eq, Structural)]
pub struct WorkerSchedule {
    pub interval_secs: u64,
    pub min_retry_delay_secs: u64,
}

#[derive(Debug)]
pub enum GasPriceOracle {
    Fixed(FixedPriceOracle),
    Sampled(SampledPriceOracle),
}

impl GasPriceOracle {
    pub fn fixed(l2_gas_prices: GasPrices, l1_gas_prices: GasPrices, l1_data_gas_prices: GasPrices) -> (oracle:
        Self)
        ensures
            oracle matches GasPriceOracle::Fixed(fixed) && fixed.l2() == l2_gas_prices
                && fixed.l1() == l1_gas_prices && fixed.l1_data() == l1_data_gas_prices,
    {
        GasPriceOracle::Fixed(
            FixedPriceOracle::new(l2_gas_prices, l1_gas_prices, l1_data_gas_prices),
        )
    }

    /// Creates a new gas oracle that samples the gas prices from an Ethereum chain.
    pub fn sampled_ethereum(url: String) -> (oracle: Self)
        ensures
            oracle matches GasPriceOracle::Sampled(sampled) && sampled.sampler
                == Sampler::Ethereum(EthSampler { provider: url }),
    {
        GasPriceOracle::Sampled(SampledPriceOracle::new(Sampler::ethereum(url)))
    }

    /// Creates a new gas oracle that samples the gas prices from a Starknet chain.
    pub fn sampled_starknet(url: String) -> (oracle: Self)
        ensures
            oracle matches GasPriceOracle::Sampled(sampled) && sampled.sampler
                == Sampler::Starknet(StarknetSampler { provider: url }),
    {
        GasPriceOracle::Sampled(SampledPriceOracle::new(Sampler::starknet(url)))
    }

    /// Returns the current L1 gas prices.
    pub fn l1_gas_prices(&self) -> (prices: GasPrices)
        ensures
            match self {
                GasPriceOracle::Fixed(fixed) => prices == fixed.l1(),
                GasPriceOracle::Sampled(sampled) => is_average(
                    sampled.samples.l1_gas_prices.0@,
                    prices,
                ),
            },
    {
        match self {
            GasPriceOracle::Fixed(fixed) => *fixed.l1_gas_prices(),
            GasPriceOracle::Sampled(sampled) => sampled.avg_l1_gas_prices(),
        }
    }

    /// Returns the current data gas prices.
    pub fn l1_data_gas_prices(&self) -> (prices: GasPrices)
        ensures
            match self {
                GasPriceOracle::Fixed(fixed) => prices == fixed.l1_data(),
                GasPriceOracle::Sampled(sampled) => is_average(
                    sampled.samples.l1_data_gas_prices.0@,
                    prices,
                ),
            },
    {
        match self {
            GasPriceOracle::Fixed(fixed) => *fixed.l1_data_gas_prices(),
            GasPriceOracle::Sampled(sampled) => sampled.avg_l1_data_gas_prices(),
        }
    }

    /// Returns the current L2 gas prices.
    pub fn l2_gas_prices(&self) -> (prices: GasPrices)
        ensures
            match self {
                GasPriceOracle::Fixed(fixed) => prices == fixed.l2(),
                GasPriceOracle::Sampled(sampled) => is_average(
                    sampled.samples.l2_gas_prices.0@,
                    prices,
                ),
            },
    {
        match self {
            GasPriceOracle::Fixed(fixed) => *fixed.l2_gas_prices(),
            GasPriceOracle::Sampled(sampled) => sampled.avg_l2_gas_prices(),
        }
    }

    /// The schedule of the oracle's worker: a fixed oracle has none, a
    /// sampled one samples every 60 seconds and waits 3 seconds at least
    /// before it tries again.
    pub fn run_worker(&self) -> (r: Option<WorkerSchedule>)
        ensures
            r == match self {
                GasPriceOracle::Fixed(_) => None::<WorkerSchedule>,
                GasPriceOracle::Sampled(_) => Some(
                    WorkerSchedule { interval_secs: 60, min_retry_delay_secs: 3 },
                ),
            },
    {
        match self {
            GasPriceOracle::Fixed(_) => None,
            GasPriceOracle::Sampled(_) => Some(
                WorkerSchedule {
                    interval_secs: DEFAULT_SAMPLING_INTERVAL_SECS,
                    min_retry_delay_secs: MIN_RETRY_DELAY_SECS,
                },
            ),
        }
    }

    pub fn create_for_testing() -> (oracle: Self)
        ensures
            oracle matches GasPriceOracle::Fixed(fixed) && both(fixed.l1(), 20_000_000_000)
                && both(fixed.l2(), 20_000_000_000) && both(fixed.l1_data(), 1_000_000),
    {
        GasPriceOracle::Fixed(FixedPriceOracle::default())
    }
}

} // verus!
