use avanza_ghostfolio::avanza::{AvanzaFundInfo, CountryChartDaum, SectorChartDaum};
use avanza_ghostfolio::ghostfolio::{
    generate_country_json, generate_sectors_json, generate_ticker_name, generate_url,
    get_insert_symbol_query, prepare_insert_fund, prepare_insert_fund_with_id,
    prepare_insert_stock_symbol, prepare_insert_stock_symbol_with_id, scraper_config, SymbolType,
};

fn country(code: &str, weight: &str) -> CountryChartDaum {
    CountryChartDaum {
        name: format!("{} name", code),
        weight: weight.to_string(),
        type_field: "COUNTRY".to_string(),
        country_code: code.to_string(),
    }
}

fn sector(name: &str, weight: &str) -> SectorChartDaum {
    SectorChartDaum { name: name.to_string(), weight: weight.to_string() }
}

fn sample_fund() -> AvanzaFundInfo {
    AvanzaFundInfo {
        isin: "SE0001234567".to_string(),
        name: "Avanza Zero".to_string(),
        description: "An index fund".to_string(),
        nav_date: "2023-07-20".to_string(),
        currency: "SEK".to_string(),
        country_chart_data: vec![country("SE", "0.9"), country("US", "0.1")],
        sector_chart_data: vec![sector("Finans", "0.3"), sector("Industri", "0.7")],
    }
}

fn is_uuid_v4(s: &str) -> bool {
    let cs: Vec<char> = s.chars().collect();
    cs.len() == 36
        && cs.iter().enumerate().all(|(i, c)| {
            if i == 8 || i == 13 || i == 18 || i == 23 {
                *c == '-'
            } else {
                c.is_ascii_digit() || ('a'..='f').contains(c)
            }
        })
        && cs[14] == '4'
        && "89ab".contains(cs[19])
}

const TEMPLATE_HEAD: &str = "INSERT INTO public.\"SymbolProfile\" (countries, \"createdAt\", \"dataSource\", id, name, \"updatedAt\", symbol, sectors,\n                                    currency, \"assetClass\", \"assetSubClass\", \"symbolMapping\", \"scraperConfiguration\",\n                                    url, comment, isin)\nVALUES ('";

fn expected_fund_query(
    countries: &str,
    id: &str,
    name: &str,
    symbol: &str,
    sectors: &str,
    scraper: &str,
    url: &str,
    isin: &str,
) -> String {
    format!(
        "{}{}', current_timestamp, 'MANUAL'::\"DataSource\", '{}', '{}',\n        current_timestamp, '{}', '{}', 'SEK',\n        'EQUITY'::\"AssetClass\", 'MUTUALFUND'::\"AssetSubClass\", null, '{}',\n        '{}', null, '{}');\n",
        TEMPLATE_HEAD, countries, id, name, symbol, sectors, scraper, url, isin
    )
}

#[test]
fn symbol_type_reads_its_names() {
    assert_eq!(SymbolType::from_str("STOCK"), SymbolType::STOCK);
    assert_eq!(SymbolType::from_str("FUND"), SymbolType::MUTUALFUND);
    assert_eq!(SymbolType::parse("FUND"), Some(SymbolType::MUTUALFUND));
    assert_eq!(SymbolType::parse("MUTUALFUND"), None);
    assert_eq!(SymbolType::parse("stock"), None);
}

#[test]
fn symbol_type_display_names() {
    assert_eq!(SymbolType::STOCK.display_name(), "STOCK");
    assert_eq!(SymbolType::MUTUALFUND.display_name(), "FUND");
}

#[test]
fn symbol_type_name_roundtrip() {
    for t in [SymbolType::STOCK, SymbolType::MUTUALFUND] {
        assert_eq!(SymbolType::from_str(&t.display_name()), t);
    }
}

#[test]
fn url_of_an_order_book() {
    assert_eq!(
        generate_url(&"878733".to_string()),
        "https://www.avanza.se/fonder/om-fonden.html/878733"
    );
}

#[test]
fn ticker_names() {
    assert_eq!(generate_ticker_name(&"Avanza Zero".to_string()), "AVANZA_ZERO");
    assert_eq!(generate_ticker_name(&"Öhman Global Growth".to_string()), "ÖHMAN_GLOBAL_GROWTH");
    assert_eq!(generate_ticker_name(&"already_UP".to_string()), "ALREADY_UP");
    assert_eq!(generate_ticker_name(&"".to_string()), "");
}

#[test]
fn country_json_of_no_countries() {
    let mut fund = sample_fund();
    fund.country_chart_data = vec![];
    assert_eq!(generate_country_json(&fund), "[]");
}

#[test]
fn country_json_of_two_countries() {
    assert_eq!(
        generate_country_json(&sample_fund()),
        "[{\"code\":\"SE\",\"weight\":0.9},{\"code\":\"US\",\"weight\":0.1}]"
    );
}

#[test]
fn country_json_escapes_codes() {
    let mut fund = sample_fund();
    fund.country_chart_data = vec![country("S\"E", "1.0")];
    assert_eq!(generate_country_json(&fund), "[{\"code\":\"S\\\"E\",\"weight\":1.0}]");
}

#[test]
fn sectors_json_of_no_sectors() {
    let mut fund = sample_fund();
    fund.sector_chart_data = vec![];
    assert_eq!(generate_sectors_json(&fund).unwrap(), "[]");
}

#[test]
fn sectors_json_of_two_sectors() {
    assert_eq!(
        generate_sectors_json(&sample_fund()).unwrap(),
        "[{\"name\":\"Finans\",\"weight\":0.3},{\"name\":\"Industri\",\"weight\":0.7}]"
    );
}

#[test]
fn scraper_config_of_a_fund_and_a_stock() {
    assert_eq!(
        scraper_config(&"878733".to_string(), SymbolType::MUTUALFUND).unwrap(),
        "{\"orderbook_id\":\"878733\",\"source\":\"avanza\",\"symbol_type\":\"FUND\"}"
    );
    assert_eq!(
        scraper_config(&"5361".to_string(), SymbolType::STOCK).unwrap(),
        "{\"orderbook_id\":\"5361\",\"source\":\"avanza\",\"symbol_type\":\"STOCK\"}"
    );
}

#[test]
fn fund_insert_with_given_id() {
    let fund = sample_fund();
    let id = "0b5f2c1e-8d3a-4c1b-9e2f-1a2b3c4d5e6f".to_string();
    let query = prepare_insert_fund_with_id(&fund, &"878733".to_string(), &id).unwrap();
    let expected = expected_fund_query(
        "[{\"code\":\"SE\",\"weight\":0.9},{\"code\":\"US\",\"weight\":0.1}]",
        &id,
        "Avanza Zero",
        "AVANZA_ZERO",
        "[{\"name\":\"Finans\",\"weight\":0.3},{\"name\":\"Industri\",\"weight\":0.7}]",
        "{\"orderbook_id\":\"878733\",\"source\":\"avanza\",\"symbol_type\":\"FUND\"}",
        "https://www.avanza.se/fonder/om-fonden.html/878733",
        "SE0001234567",
    );
    assert_eq!(query, expected);
}

#[test]
fn fund_insert_with_fresh_id() {
    let fund = sample_fund();
    let orderbook_id = "878733".to_string();
    let query = prepare_insert_fund(fund.clone(), &orderbook_id).unwrap();
    let marker = "', current_timestamp, 'MANUAL'::\"DataSource\", '";
    let start = query.find(marker).unwrap() + marker.len();
    let id = query[start..start + 36].to_string();
    assert!(is_uuid_v4(&id), "not a random uuid: {}", id);
    assert_eq!(query, prepare_insert_fund_with_id(&fund, &orderbook_id, &id).unwrap());
}

#[test]
fn fresh_ids_differ() {
    let fund = sample_fund();
    let a = prepare_insert_fund(fund.clone(), &"1".to_string()).unwrap();
    let b = prepare_insert_fund(fund, &"1".to_string()).unwrap();
    assert_ne!(a, b);
}

#[test]
fn symbol_insert_query_text() {
    assert_eq!(
        get_insert_symbol_query(),
        "INSERT INTO public.\"SymbolProfile\" (countries, \"createdAt\", \"dataSource\", id, name, \"updatedAt\", symbol, sectors,\n    currency, \"assetClass\", \"assetSubClass\", \"symbolMapping\", \"scraperConfiguration\",\n    url, comment, isin) VALUES \n    ($1, current_timestamp, 'MANUAL'::\"DataSource\", $2, $3, current_timestamp, $4, $5, 'SEK', 'EQUITY'::\"AssetClass\", 'MUTUALFUND'::\"AssetSubClass\", null, $6,\n$7, null, $8);\n"
    );
}

#[test]
fn stock_insert_values_with_given_id() {
    let values = prepare_insert_stock_symbol_with_id(
        &"Volvo B".to_string(),
        &"5269".to_string(),
        &"SE0000115446".to_string(),
        &"id-1".to_string(),
    )
    .unwrap();
    assert_eq!(
        values,
        vec![
            "[]".to_string(),
            "id-1".to_string(),
            "Volvo B".to_string(),
            "VOLVO_B".to_string(),
            "[]".to_string(),
            "{\"orderbook_id\":\"5269\",\"source\":\"avanza\",\"symbol_type\":\"STOCK\"}".to_string(),
            "https://www.avanza.se/fonder/om-fonden.html/5269".to_string(),
            "SE0000115446".to_string(),
        ]
    );
}

#[test]
fn stock_insert_values_with_fresh_id() {
    let values = prepare_insert_stock_symbol(
        &"Volvo B".to_string(),
        &"5269".to_string(),
        &"SE0000115446".to_string(),
    )
    .unwrap();
    assert!(is_uuid_v4(&values[1]));
    let again = prepare_insert_stock_symbol_with_id(
        &"Volvo B".to_string(),
        &"5269".to_string(),
        &"SE0000115446".to_string(),
        &values[1],
    )
    .unwrap();
    assert_eq!(values, again);
}
