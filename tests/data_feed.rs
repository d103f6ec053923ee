use xasset::data_feed::{Asset, DataFeed, Error};

const ADMIN: u64 = 9;

fn create_datafeed_contract() -> DataFeed {
    let asset_xlm = Asset::Other("XLM".to_string());
    let asset_xusd = Asset::Other("XUSD".to_string());
    DataFeed::new(ADMIN, vec![asset_xlm, asset_xusd], Asset::Other("XUSD".to_string()), 14, 300)
}

#[test]
fn test_data_feed() {
    let asset_xlm = Asset::Other("XLM".to_string());
    let asset_xusd = Asset::Other("XUSD".to_string());
    let asset_xeur = Asset::Other("XEUR".to_string());
    let mut datafeed = create_datafeed_contract();

    datafeed.add_assets(ADMIN, vec![Asset::Other("XEUR".to_string())]).unwrap();

    let result = datafeed.add_assets(ADMIN, vec![Asset::Other("XLM".to_string())]);
    assert!(result.is_err());
    assert_eq!(result.unwrap_err(), Error::AssetAlreadyExists);

    let assets = datafeed.assets();
    assert_eq!(assets.len(), 3);
    assert!(assets.contains(&asset_xlm));
    assert!(assets.contains(&asset_xusd));
    assert!(assets.contains(&asset_xeur));

    assert_eq!(datafeed.base(), asset_xusd);
    assert_eq!(datafeed.decimals(), 14);
    assert_eq!(datafeed.resolution(), 300);

    let timestamp1: u64 = 1_000_000_000;
    let price1: i128 = 10_000_000;
    datafeed.set_asset_price(ADMIN, &asset_xlm, price1, timestamp1).unwrap();
    assert_eq!(datafeed.price(&asset_xlm, timestamp1).unwrap().unwrap().price, price1);

    let last_price = datafeed.lastprice(&asset_xlm).unwrap().unwrap();
    assert_eq!(last_price.price, price1);
    assert_eq!(last_price.timestamp, timestamp1);

    let timestamp2: u64 = 1_000_001_000;
    let price2: i128 = 10_500_000;
    datafeed.set_asset_price(ADMIN, &asset_xlm, price2, timestamp2).unwrap();

    let prices = datafeed.prices(&asset_xlm, 2).unwrap().unwrap();
    assert_eq!(prices.len(), 2);
    assert_eq!(prices[0].price, price2);
    assert_eq!(prices[0].timestamp, timestamp2);
    assert_eq!(prices[1].price, price1);
    assert_eq!(prices[1].timestamp, timestamp1);

    let prices_limited = datafeed.prices(&asset_xlm, 1).unwrap().unwrap();
    assert_eq!(prices_limited.len(), 1);
    assert_eq!(prices_limited[0].price, price2);
    assert_eq!(prices_limited[0].timestamp, timestamp2);

    let non_existent_asset = Asset::Other("NON_EXISTENT".to_string());
    let result = datafeed.lastprice(&non_existent_asset);
    assert!(result.is_err());
    assert_eq!(result.unwrap_err(), Error::AssetNotFound);
    let result = datafeed.price(&non_existent_asset, timestamp1);
    assert!(result.is_err());
    assert_eq!(result.unwrap_err(), Error::AssetNotFound);
    let result = datafeed.prices(&non_existent_asset, 1);
    assert!(result.is_err());

    let non_existent_timestamp: u64 = 2_000_000_000;
    assert!(datafeed.price(&asset_xlm, non_existent_timestamp).unwrap().is_none());
}

#[test]
fn price_at_same_timestamp_is_replaced() {
    let mut feed = create_datafeed_contract();
    let xlm = Asset::Other("XLM".to_string());
    feed.set_asset_price(ADMIN, &xlm, 5, 20).unwrap();
    feed.set_asset_price(ADMIN, &xlm, 7, 10).unwrap();
    feed.set_asset_price(ADMIN, &xlm, 9, 20).unwrap();
    let all = feed.prices(&xlm, 10).unwrap().unwrap();
    assert_eq!(all.len(), 2);
    assert_eq!((all[0].timestamp, all[0].price), (20, 9));
    assert_eq!((all[1].timestamp, all[1].price), (10, 7));
    assert_eq!(feed.lastprice(&xlm).unwrap().unwrap().price, 9);
}

#[test]
fn duplicate_in_one_batch_is_refused() {
    let mut feed = create_datafeed_contract();
    let result = feed.add_assets(ADMIN, vec![Asset::Stellar(4), Asset::Stellar(4)]);
    assert_eq!(result, Err(Error::AssetAlreadyExists));
    assert_eq!(feed.assets().len(), 2);
    assert_eq!(feed.set_asset_price(ADMIN, &Asset::Stellar(4), 1, 1), Err(Error::AssetNotFound));
}

#[test]
fn only_the_feed_admin_changes_it() {
    let mut feed = create_datafeed_contract();
    let xlm = Asset::Other("XLM".to_string());
    assert_eq!(feed.set_asset_price(ADMIN + 1, &xlm, 5, 20), Err(Error::Unauthorized));
    assert_eq!(feed.lastprice(&xlm), Ok(None));
    assert_eq!(feed.add_assets(ADMIN + 1, vec![Asset::Stellar(4)]), Err(Error::Unauthorized));
    assert_eq!(feed.assets().len(), 2);
}
