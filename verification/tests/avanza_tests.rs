use avanza_ghostfolio::avanza::{
    avanza_fund_info_url, prepare_avanza_search_body, take_first_hit, AvanzaSearchResult, Hit, Link,
    ResultGroup, AVANZA_SEARCH_URL,
};

fn hit(id: &str) -> Hit {
    Hit {
        link: Link {
            type_field: "FUND".to_string(),
            orderbook_id: id.to_string(),
            url_display_name: format!("fund {}", id),
            link_display: String::new(),
            short_link_display: String::new(),
        },
        currency: "SEK".to_string(),
        last_price: "100,5".to_string(),
        highlighted_display_title: format!("Fund {}", id),
    }
}

#[test]
fn search_body_of_an_isin() {
    assert_eq!(
        prepare_avanza_search_body(&"SE0001234567".to_string()).unwrap(),
        "{\"originPath\":\"/start\",\"query\":\"SE0001234567\",\"screenSize\":\"PHONE\",\"searchSessionId\":\"b1b431f8-2542-400b-bcc0-c594fa124493\"}"
    );
}

#[test]
fn search_body_agrees_with_serde_json() {
    let isin = "SE\"1";
    let mut map = serde_json::Map::new();
    map.insert("query".to_string(), serde_json::Value::String(isin.to_string()));
    map.insert("screenSize".to_string(), serde_json::Value::String("PHONE".to_string()));
    map.insert("originPath".to_string(), serde_json::Value::String("/start".to_string()));
    map.insert(
        "searchSessionId".to_string(),
        serde_json::Value::String("b1b431f8-2542-400b-bcc0-c594fa124493".to_string()),
    );
    let expected = serde_json::to_string(&serde_json::Value::Object(map)).unwrap();
    assert_eq!(prepare_avanza_search_body(&isin.to_string()).unwrap(), expected);
}

#[test]
fn fund_guide_url() {
    assert_eq!(
        avanza_fund_info_url(&"878733".to_string()),
        "https://www.avanza.se/_api/fund-guide/guide/878733"
    );
    assert_eq!(AVANZA_SEARCH_URL, "https://www.avanza.se/_api/search/global-search?limit=10");
}

#[test]
fn first_hit_of_first_group() {
    let result = AvanzaSearchResult {
        result_groups: vec![
            ResultGroup { hits: vec![hit("1"), hit("2")] },
            ResultGroup { hits: vec![hit("3")] },
        ],
    };
    assert_eq!(take_first_hit(result), hit("1"));
}
