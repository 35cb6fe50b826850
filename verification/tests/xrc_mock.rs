use subnet_rental_canister::external_calls::AssetClass;
use subnet_rental_canister::xrc_mock::{
    closest_rate, get_exchange_rate, set_exchange_rate_data, DEFAULT_RATE,
};

#[test]
fn closest_rate_prefers_the_first_of_equally_close() {
    let rates = vec![(100, 1), (200, 2), (300, 3)];
    assert_eq!(closest_rate(&rates, 190), Some((200, 2)));
    assert_eq!(closest_rate(&rates, 150), Some((100, 1)));
    assert_eq!(closest_rate(&rates, 1_000), Some((300, 3)));
    assert_eq!(closest_rate(&vec![], 5), None);
}

#[test]
fn mock_answers_with_the_stored_or_default_rate() {
    let mut rates = Vec::new();
    let r = get_exchange_rate(&rates, Some(50), 0);
    assert_eq!(r.rate, DEFAULT_RATE);
    assert_eq!(r.timestamp, 50);
    assert_eq!(r.metadata.decimals, 9);
    assert_eq!(r.base_asset.symbol, "ICP");
    assert_eq!(r.base_asset.class, AssetClass::Cryptocurrency);
    assert_eq!(r.quote_asset.symbol, "CXDR");
    set_exchange_rate_data(&mut rates, vec![(40, 4_000_000_000), (90, 3_000_000_000)]);
    assert_eq!(rates.len(), 2);
    assert_eq!(get_exchange_rate(&rates, Some(50), 0).rate, 4_000_000_000);
    let now = get_exchange_rate(&rates, None, 80 * 1_000_000_000);
    assert_eq!(now.timestamp, 86);
    assert_eq!(now.rate, 3_000_000_000);
}
