//! The logic of a stand-in for the exchange rate canister, for tests that cannot reach the
//! real one: it answers each question with the stored rate whose timestamp is closest to
//! the one asked for.
use crate::external_calls::{Asset, AssetClass};
use vstd::prelude::*;

verus! {

/// The cycles that a call of the exchange rate canister costs.
pub const CALL_CYCLES_COST: u128 = 1_000_000_000;

/// The rate given while no rate is stored: 1 ICP = 3.4979 XDR, scaled by 10^9.
pub const DEFAULT_RATE: u64 = 3_497_900_000;

/// How many seconds after the present a question without a timestamp is answered for.
pub const DEFAULT_OFFSET_SECONDS: u64 = 6;

/// How an exchange rate was determined.
#[derive(Debug, Clone, PartialEq, Eq)]
pub struct ExchangeRateMetadata {
    pub decimals: u32,
    pub base_asset_num_queried_sources: usize,
    pub base_asset_num_received_rates: usize,
    pub quote_asset_num_queried_sources: usize,
    pub quote_asset_num_received_rates: usize,
    pub standard_deviation: u64,
    pub forex_timestamp: Option<u64>,
}

/// An exchange rate of the base asset in the quote asset, scaled by 10^decimals.
#[derive(Debug, Clone, PartialEq, Eq)]
pub struct ExchangeRate {
    pub base_asset: Asset,
    pub quote_asset: Asset,
    pub timestamp: u64,
    pub rate: u64,
    pub metadata: ExchangeRateMetadata,
}

/// The distance between two timestamps.
pub open spec fn distance(a: u64, b: u64) -> nat {
    if a >= b {
        (a - b) as nat
    } else {
        (b - a) as nat
    }
}

/// The `i`-th stored rate is the first of those whose timestamp is closest to `timestamp`.
pub open spec fn is_closest(rates: Seq<(u64, u64)>, timestamp: u64, i: int) -> bool {
    &&& 0 <= i < rates.len()
    &&& forall|j: int|
        0 <= j < rates.len() ==> distance(rates[i].0, timestamp) <= distance(
            #[trigger] rates[j].0,
            timestamp,
        )
    &&& forall|j: int|
        0 <= j < i ==> distance(rates[i].0, timestamp) < distance(#[trigger] rates[j].0, timestamp)
}

fn abs_diff(a: u64, b: u64) -> (d: u64)
    ensures
        d == distance(a, b),
{
    if a >= b {
        a - b
    } else {
        b - a
    }
}

/// The first stored (timestamp, rate) pair whose timestamp is closest to `timestamp`, or
/// `None` while none is stored.
pub fn closest_rate(rates: &Vec<(u64, u64)>, timestamp: u64) -> (r: Option<(u64, u64)>)
    ensures
        r is None <==> rates@.len() == 0,
        r matches Some(x) ==> exists|i: int| is_closest(rates@, timestamp, i) && rates@[i] == x,
{
    if rates.len() == 0 {
        return None;
    }
    let mut best: usize = 0;
    let mut best_distance = abs_diff(rates[0].0, timestamp);
    let mut i: usize = 1;
    while i < rates.len()
        invariant
            1 <= i <= rates@.len(),
            best < i,
            best_distance == distance(rates@[best as int].0, timestamp),
            forall|j: int|
                0 <= j < i ==> best_distance <= distance(#[trigger] rates@[j].0, timestamp),
            forall|j: int|
                0 <= j < best ==> best_distance < distance(#[trigger] rates@[j].0, timestamp),
        decreases rates@.len() - i,
    {
        let d = abs_diff(rates[i].0, timestamp);
        if d < best_distance {
            best = i;
            best_distance = d;
        }
        i = i + 1;
    }
    assert(is_closest(rates@, timestamp, best as int));
    Some(rates[best])
}

/// The timestamp that a question is answered for: the one asked for, else a few seconds
/// after the present.
pub open spec fn answered_timestamp(requested: Option<u64>, now_nanos: u64) -> u64 {
    match requested {
        Some(t) => t,
        None => (now_nanos / 1_000_000_000 + DEFAULT_OFFSET_SECONDS) as u64,
    }
}

/// The answer to a question for the ICP/XDR rate at `requested` (or about now, if `None`):
/// the rate stored closest to that time, or the default rate while none is stored, with
/// nine decimals, for the timestamp that was asked about.
pub fn get_exchange_rate(rates: &Vec<(u64, u64)>, requested: Option<u64>, now_nanos: u64) -> (r:
    ExchangeRate)
    ensures
        r.timestamp == answered_timestamp(requested, now_nanos),
        rates@.len() == 0 ==> r.rate == DEFAULT_RATE,
        rates@.len() > 0 ==> exists|i: int|
            is_closest(rates@, r.timestamp, i) && rates@[i].1 == r.rate,
        r.base_asset.symbol@ == "ICP"@,
        r.base_asset.class == AssetClass::Cryptocurrency,
        r.quote_asset.symbol@ == "CXDR"@,
        r.quote_asset.class == AssetClass::FiatCurrency,
        r.metadata == (ExchangeRateMetadata {
            decimals: 9,
            base_asset_num_queried_sources: 7,
            base_asset_num_received_rates: 5,
            quote_asset_num_queried_sources: 10,
            quote_asset_num_received_rates: 4,
            standard_deviation: 0,
            forex_timestamp: None,
        }),
{
    let timestamp = match requested {
        Some(t) => t,
        None => now_nanos / 1_000_000_000 + DEFAULT_OFFSET_SECONDS,
    };
    let rate = match closest_rate(rates, timestamp) {
        Some((_, rate)) => rate,
        None => DEFAULT_RATE,
    };
    ExchangeRate {
        base_asset: Asset { symbol: String::from_str("ICP"), class: AssetClass::Cryptocurrency },
        quote_asset: Asset { symbol: String::from_str("CXDR"), class: AssetClass::FiatCurrency },
        timestamp,
        rate,
        metadata: ExchangeRateMetadata {
            decimals: 9,
            base_asset_num_queried_sources: 7,
            base_asset_num_received_rates: 5,
            quote_asset_num_queried_sources: 10,
            quote_asset_num_received_rates: 4,
            standard_deviation: 0,
            forex_timestamp: None,
        },
    }
}

/// Stores more (timestamp, rate) pairs after those already stored.
pub fn set_exchange_rate_data(rates: &mut Vec<(u64, u64)>, data: Vec<(u64, u64)>)
    ensures
        final(rates)@ == old(rates)@ + data@,
{
    let mut data = data;
    rates.append(&mut data);
}

} // verus!
