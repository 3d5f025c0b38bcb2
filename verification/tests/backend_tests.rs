use avanza_ghostfolio::avanza::AvanzaFundInfo;
use avanza_ghostfolio::backend::{generate_ticker_name, prepare_insert_fund, prepare_insert_fund_with_id, scraper_config};

fn fund() -> AvanzaFundInfo {
    AvanzaFundInfo {
        isin: "SE0001".to_string(),
        name: "Small Cap".to_string(),
        ..Default::default()
    }
}

#[test]
fn backend_scraper_config() {
    assert_eq!(
        scraper_config(&"42".to_string()).unwrap(),
        "{\"orderbook_id\":\"42\",\"source\":\"avanza\"}"
    );
}

#[test]
fn backend_ticker_of_a_fund() {
    assert_eq!(generate_ticker_name(&fund()), "SMALL_CAP");
}

#[test]
fn backend_fund_insert() {
    let query = prepare_insert_fund_with_id(&fund(), &"42".to_string(), &"the-id".to_string()).unwrap();
    let expected = "INSERT INTO public.\"SymbolProfile\" (countries, \"createdAt\", \"dataSource\", id, name, \"updatedAt\", symbol, sectors,\n                                    currency, \"assetClass\", \"assetSubClass\", \"symbolMapping\", \"scraperConfiguration\",\n                                    url, comment, isin)\nVALUES ('[]', current_timestamp, 'MANUAL'::\"DataSource\", 'the-id', 'Small Cap',\n        current_timestamp, 'SMALL_CAP', '[]', 'SEK',\n        'EQUITY'::\"AssetClass\", 'MUTUALFUND'::\"AssetSubClass\", null, '{\"orderbook_id\":\"42\",\"source\":\"avanza\"}',\n        'https://www.avanza.se/fonder/om-fonden.html/42', null, 'SE0001');\n";
    assert_eq!(query, expected);
    let fresh = prepare_insert_fund(fund(), &"42".to_string()).unwrap();
    assert!(fresh.contains("'SMALL_CAP', '[]', 'SEK'"));
    assert_ne!(fresh, query);
}
