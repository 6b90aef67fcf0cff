//! Gas prices, the buffer of sampled prices and their average.

use vstd::prelude::*;
use crate::buffer::{after_push, SlidingWindowBuffer};

verus! {

/// The price of one unit of gas: a number that is not zero.
#[derive(Debug, Clone, Copy, PartialEq, Eq, Structural)]
pub struct GasPrice {
    amount: u128,
}

/// A gas price of zero was asked for.
#[derive(Debug, Clone, Copy, PartialEq, Eq, Structural)]
pub struct ZeroGasPrice;

impl GasPrice {
    #[verifier::type_invariant]
    closed spec fn positive(self) -> bool {
        self.amount >= 1
    }

    /// The price as a number.
    pub closed spec fn value(self) -> u128 {
        self.amount
    }

    /// The price of `amount`, which must not be zero.
    pub fn new(amount: u128) -> (r: Result<GasPrice, ZeroGasPrice>)
        ensures
            r is Ok <==> amount != 0,
            r matches Ok(price) ==> price.value() == amount,
    {
        if amount == 0 {
            Err(ZeroGasPrice)
        } else {
            Ok(GasPrice { amount })
        }
    }

    /// The price of `amount`, or the lowest price where `amount` is zero.
    pub fn at_least_min(amount: u128) -> (price: GasPrice)
        ensures
            price.value() == if amount == 0 {
                1
            } else {
                amount
            },
    {
        if amount == 0 {
            GasPrice { amount: 1 }
        } else {
            GasPrice { amount }
        }
    }

    /// The lowest price.
    pub fn min() -> (price: GasPrice)
        ensures
            price.value() == 1,
    {
        GasPrice { amount: 1 }
    }

    /// The price as a number, which is never zero.
    pub fn get(&self) -> (amount: u128)
        ensures
            amount == self.value(),
            amount >= 1,
    {
        proof {
            use_type_invariant(self);
        }
        self.amount
    }
}

/// The price of gas in the two fee tokens.
#[derive(Debug, Clone, Copy, PartialEq, Eq, Structural)]
pub struct GasPrices {
    /// The price of one unit of gas in wei.
    pub eth: GasPrice,
    /// The price of one unit of gas in fri.
    pub strk: GasPrice,
}

impl GasPrices {
    pub fn new(eth: GasPrice, strk: GasPrice) -> (prices: GasPrices)
        ensures
            prices.eth == eth,
            prices.strk == strk,
    {
        GasPrices { eth, strk }
    }

    /// The lowest prices.
    pub fn min() -> (prices: GasPrices)
        ensures
            prices.eth.value() == 1,
            prices.strk.value() == 1,
    {
        GasPrices { eth: GasPrice::min(), strk: GasPrice::min() }
    }
}

/// The sum of the prices in wei.
pub open spec fn eth_total(samples: Seq<GasPrices>) -> nat
    decreases samples.len(),
{
    if samples.len() == 0 {
        0
    } else {
        eth_total(samples.drop_last()) + samples.last().eth.value() as nat
    }
}

/// The sum of the prices in fri.
pub open spec fn strk_total(samples: Seq<GasPrices>) -> nat
    decreases samples.len(),
{
    if samples.len() == 0 {
        0
    } else {
        strk_total(samples.drop_last()) + samples.last().strk.value() as nat
    }
}

/// A sum as far as 128 bits hold it.
pub open spec fn saturated(total: nat) -> u128 {
    if total > u128::MAX {
        u128::MAX
    } else {
        total as u128
    }
}

/// The quotient of `a` by `n`, rounded up.
pub open spec fn ceiling_quotient(a: u128, n: nat) -> int {
    if a as int % n as int == 0 {
        a as int / n as int
    } else {
        a as int / n as int + 1
    }
}

/// The average of the samples in one token, from their sum: the sum as
/// far as 128 bits hold it, divided by the number of samples and rounded
/// up.
pub open spec fn average_of(total: nat, count: nat) -> int {
    ceiling_quotient(saturated(total), count)
}

/// `prices` is the average of the samples: the lowest prices where there
/// are none, else in each token the sum of the samples, as far as 128 bits
/// hold it, divided by their number and rounded up.
pub open spec fn is_average(samples: Seq<GasPrices>, prices: GasPrices) -> bool {
    if samples.len() == 0 {
        prices.eth.value() == 1 && prices.strk.value() == 1
    } else {
        prices.eth.value() == average_of(eth_total(samples), samples.len())
            && prices.strk.value() == average_of(strk_total(samples), samples.len())
    }
}

/// The buffer `post` is the buffer `pre` after `prices` were pushed: the
/// oldest sample gave way where the buffer was full.
pub open spec fn pushed(
    pre: SlidingWindowBuffer<GasPrices>,
    post: SlidingWindowBuffer<GasPrices>,
    prices: GasPrices,
) -> bool {
    &&& post.limit() == pre.limit()
    &&& post@ == after_push(pre@, pre.limit(), prices)
}

/// The quotient of `a` by `n`, rounded up.
fn div_ceil(a: u128, n: u128) -> (q: u128)
    requires
        n > 0,
    ensures
        q == ceiling_quotient(a, n as nat),
        a >= 1 ==> q >= 1,
{
    let q = a / n;
    let r = a % n;
    if r != 0 {
        assert(q < a) by (nonlinear_arith)
            requires
                q == a / n,
                r == a % n,
                r != 0,
                n > 0,
        {
        }
        q + 1
    } else {
        assert(a >= 1 ==> q >= 1) by (nonlinear_arith)
            requires
                q == a / n,
                0 == a % n,
                n > 0,
        {
        }
        q
    }
}

/// The gas prices sampled last, as many as the buffer was made for.
#[derive(Debug)]
pub struct GasPricesBuffer(pub SlidingWindowBuffer<GasPrices>);

impl GasPricesBuffer {
    pub fn new(size: usize) -> (buffer: Self)
        ensures
            buffer.0@ == Seq::<GasPrices>::empty(),
            buffer.0.limit() == size,
    {
        GasPricesBuffer(SlidingWindowBuffer::new(size))
    }

    /// Adds a sample, in place of the oldest one where the buffer is full.
    pub fn push(&mut self, prices: GasPrices)
        ensures
            pushed(old(self).0, final(self).0, prices),
    {
        let _ = self.0.push(prices);
    }

    /// Calculate the average gas prices from the buffer: the lowest prices
    /// where the buffer is empty, else in each token the sum of the
    /// samples, as far as 128 bits hold it, divided by their number and
    /// rounded up.
    pub fn average(&self) -> (prices: GasPrices)
        ensures
            is_average(self.0@, prices),
    {
        if self.0.is_empty() {
            return GasPrices::min();
        }
        let (eth_sum, strk_sum) = sum_gas_prices(&self.0);
        let count = self.0.len() as u128;
        let eth_avg = div_ceil(eth_sum, count);
        let strk_avg = div_ceil(strk_sum, count);
        GasPrices { eth: GasPrice { amount: eth_avg }, strk: GasPrice { amount: strk_avg } }
    }
}

/// Calculate the sum of gas prices of a buffer, in each token as far as
/// 128 bits hold it.
fn sum_gas_prices(samples: &SlidingWindowBuffer<GasPrices>) -> (sums: (u128, u128))
    ensures
        sums.0 == saturated(eth_total(samples@)),
        sums.1 == saturated(strk_total(samples@)),
        samples@.len() > 0 ==> sums.0 >= 1 && sums.1 >= 1,
{
    let mut eth_sum: u128 = 0;
    let mut strk_sum: u128 = 0;
    let mut i: usize = 0;
    let n = samples.len();
    while i < n
        invariant
            i <= n,
            n == samples@.len(),
            eth_sum == saturated(eth_total(samples@.subrange(0, i as int))),
            strk_sum == saturated(strk_total(samples@.subrange(0, i as int))),
            i > 0 ==> eth_sum >= 1 && strk_sum >= 1,
        decreases n - i,
    {
        match samples.get(i) {
            Some(p) => {
                let eth = p.eth.get();
                let strk = p.strk.get();
                proof {
                    let prefix = samples@.subrange(0, i as int);
                    let next = samples@.subrange(0, i + 1);
                    assert(next.drop_last() =~= prefix);
                    assert(next.last() == samples@[i as int]);
                }
                eth_sum = eth_sum.saturating_add(eth);
                strk_sum = strk_sum.saturating_add(strk);
            },
            None => {},
        }
        i += 1;
    }
    proof {
        assert(samples@.subrange(0, n as int) =~= samples@);
    }
    (eth_sum, strk_sum)
}

} // verus!
