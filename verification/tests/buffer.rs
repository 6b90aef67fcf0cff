use katana_storage::buffer::SlidingWindowBuffer;
use katana_storage::gas::{GasPrice, GasPrices, GasPricesBuffer, ZeroGasPrice};

fn prices(eth: u128, strk: u128) -> GasPrices {
    GasPrices::new(GasPrice::new(eth).unwrap(), GasPrice::new(strk).unwrap())
}

#[test]
fn buffer_size_limit() {
    const BUFFER_SIZE: usize = 5;
    let mut buffer = SlidingWindowBuffer::new(BUFFER_SIZE);

    // Fill up buffer
    for value in 0..BUFFER_SIZE {
        buffer.push(value as u128);
    }

    // Check if buffer size is maintained
    assert_eq!(buffer.len(), BUFFER_SIZE);

    // Fill up buffer
    let mut iter = buffer.iter();
    let mut expected_value = 0;
    while let Some(elem) = iter.next() {
        assert_eq!(expected_value as u128, *elem);
        expected_value += 1;
    }
    assert_eq!(expected_value, BUFFER_SIZE);

    // check first in first out
    for i in BUFFER_SIZE..(BUFFER_SIZE * 2) {
        let removed = buffer.push(i as u128);
        assert_eq!(removed, Some((i - BUFFER_SIZE) as _));
    }
}

#[test]
fn gas_prices_buffer_average_empty() {
    let buffer = GasPricesBuffer::new(5);
    let average = buffer.average();
    assert_eq!(average, GasPrices::min());
}

#[test]
fn gas_prices_buffer_average_single_element() {
    let mut buffer = GasPricesBuffer::new(5);

    let gas_price = prices(100, 200);
    buffer.push(gas_price);

    let average = buffer.average();
    assert_eq!(average.eth.get(), 100);
    assert_eq!(average.strk.get(), 200);
}

#[test]
fn gas_prices_buffer_average_multiple_elements() {
    let mut buffer = GasPricesBuffer::new(5);

    // Add test gas prices
    let samples = [prices(100, 150), prices(200, 250), prices(300, 350)];

    for price in samples {
        buffer.push(price);
    }

    let average = buffer.average();
    // Expected: eth = (100 + 200 + 300) / 3 = 200, strk = (150 + 250 + 350) / 3 = 250
    assert_eq!(average.eth.get(), 200);
    assert_eq!(average.strk.get(), 250);
}

#[test]
fn gas_prices_buffer_average_ceiling_division() {
    let mut buffer = GasPricesBuffer::new(5);

    // Add prices that don't divide evenly
    let samples = [prices(10, 11), prices(20, 22)];

    for price in samples {
        buffer.push(price);
    }

    let average = buffer.average();
    // Expected: eth = (10 + 20) / 2 = 15, strk = (11 + 22) / 2 = 16.5 -> ceil to 17
    assert_eq!(average.eth.get(), 15);
    assert_eq!(average.strk.get(), 17); // Ceiling division
}

#[test]
fn gas_prices_buffer_average_large_numbers() {
    let mut buffer = GasPricesBuffer::new(5);

    let max_val = u128::MAX / 2; // Use half of max to avoid overflow
    let samples = [prices(max_val, max_val), GasPrices::min()];

    for price in samples {
        buffer.push(price);
    }

    let average = buffer.average();
    // Test that large numbers are handled correctly
    let expected_eth = (max_val + 1).div_ceil(2);
    let expected_strk = (max_val + 1).div_ceil(2);
    assert_eq!(average.eth.get(), expected_eth);
    assert_eq!(average.strk.get(), expected_strk);
}

#[test]
fn gas_prices_sum_saturates() {
    let mut buffer = GasPricesBuffer::new(3);
    buffer.push(prices(u128::MAX, u128::MAX - 1));
    buffer.push(prices(u128::MAX, 5));
    buffer.push(prices(7, 1));
    let average = buffer.average();
    assert_eq!(average.eth.get(), u128::MAX.div_ceil(3));
    assert_eq!(average.strk.get(), u128::MAX.div_ceil(3));
}

#[test]
fn gas_prices_buffer_keeps_the_newest() {
    let mut buffer = GasPricesBuffer::new(2);
    buffer.push(prices(1000, 1000));
    buffer.push(prices(10, 30));
    buffer.push(prices(20, 40));
    let average = buffer.average();
    assert_eq!(average.eth.get(), 15);
    assert_eq!(average.strk.get(), 35);
}

#[test]
fn gas_price_is_never_zero() {
    assert_eq!(GasPrice::new(0), Err(ZeroGasPrice));
    assert_eq!(GasPrice::new(1).unwrap().get(), 1);
    assert_eq!(GasPrice::min().get(), 1);
    assert_eq!(GasPrice::new(u128::MAX).unwrap().get(), u128::MAX);
}

#[test]
fn buffer_pop_and_get() {
    let mut buffer: SlidingWindowBuffer<u32> = SlidingWindowBuffer::new(3);
    assert!(buffer.is_empty());
    assert_eq!(buffer.capacity(), 3);
    assert_eq!(buffer.pop(), None);
    assert_eq!(buffer.push(1), None);
    assert_eq!(buffer.push(2), None);
    assert_eq!(buffer.push(3), None);
    assert!(!buffer.is_empty());
    assert_eq!(buffer.get(0), Some(&1));
    assert_eq!(buffer.get(2), Some(&3));
    assert_eq!(buffer.get(3), None);
    assert_eq!(buffer.push(4), Some(1));
    assert_eq!(buffer.pop(), Some(2));
    assert_eq!(buffer.len(), 2);
    assert_eq!(buffer.push(5), None);
    assert_eq!(buffer.push(6), Some(3));
    let mut it = buffer.iter();
    assert_eq!(it.next(), Some(&4));
    assert_eq!(it.next(), Some(&5));
    assert_eq!(it.next(), Some(&6));
    assert_eq!(it.next(), None);
    assert_eq!(it.next(), None);
}

#[test]
fn buffer_made_for_none_holds_the_newest() {
    let mut buffer: SlidingWindowBuffer<u8> = SlidingWindowBuffer::new(0);
    assert_eq!(buffer.capacity(), 0);
    assert_eq!(buffer.push(1), None);
    assert_eq!(buffer.len(), 1);
    assert_eq!(buffer.push(2), Some(1));
    assert_eq!(buffer.push(3), Some(2));
    assert_eq!(buffer.len(), 1);
    assert_eq!(buffer.get(0), Some(&3));
}
