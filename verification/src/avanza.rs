//! Avanza's search and fund-guide data, and the requests sent to Avanza.

use vstd::prelude::*;
use crate::json::{entry_views, join, json_members, lemma_plain_json_string, json_object, json_object_of, json_string, json_string_literal, JsonError};

verus! {

/// A reply of Avanza's global search.
#[derive(Default, Debug, Clone, PartialEq)]
pub struct AvanzaSearchResult {
    pub result_groups: Vec<ResultGroup>,
}

/// The hits of one instrument type within a search reply.
#[derive(Default, Debug, Clone, PartialEq)]
pub struct ResultGroup {
    pub hits: Vec<Hit>,
}

/// One instrument found by a search.
#[derive(Default, Debug, Clone, PartialEq)]
pub struct Hit {
    pub link: Link,
    pub currency: String,
    pub last_price: String,
    pub highlighted_display_title: String,
}

/// Where a search hit leads on Avanza's site.
#[derive(Default, Debug, Clone, PartialEq)]
pub struct Link {
    pub type_field: String,
    pub orderbook_id: String,
    pub url_display_name: String,
    pub link_display: String,
    pub short_link_display: String,
}

/// The savings link that a search reply may carry.
#[derive(Default, Debug, Clone, PartialEq)]
pub struct ConfigurationResponse {
    pub monthly_savings_url: String,
}

/// A fund as Avanza's fund guide describes it. The net asset value stays
/// with the caller; the chart entries carry their weights as JSON numbers.
#[derive(Default, Debug, Clone, PartialEq)]
pub struct AvanzaFundInfo {
    pub isin: String,
    pub name: String,
    pub description: String,
    pub nav_date: String,
    pub currency: String,
    pub country_chart_data: Vec<CountryChartDaum>,
    pub sector_chart_data: Vec<SectorChartDaum>,
}

/// A country in a fund's allocation. `weight` is the JSON number text of
/// the country's share as a fraction of one (its percentage over 100).
#[derive(Default, Debug, Clone, PartialEq)]
pub struct CountryChartDaum {
    pub name: String,
    pub weight: String,
    pub type_field: String,
    pub country_code: String,
}

/// A sector in a fund's allocation. `weight` is the JSON number text of
/// the sector's share as a fraction of one (its percentage over 100).
#[derive(Default, Debug, Clone, PartialEq)]
pub struct SectorChartDaum {
    pub name: String,
    pub weight: String,
}

/// A manager of a fund.
#[derive(Default, Debug, Clone, PartialEq)]
pub struct FundManager {
    pub name: String,
    pub start_date: String,
}

/// The company that administers a fund.
#[derive(Default, Debug, Clone, PartialEq)]
pub struct AdminCompany {
    pub name: String,
    pub country: String,
    pub url: String,
}

/// A rating given to a fund.
#[derive(Default, Debug, Clone, PartialEq)]
pub struct FundRatingView {
    pub date: String,
    pub fund_rating_type: String,
    pub fund_rating: i64,
}

/// Avanza's global search endpoint, asking for at most ten hits.
pub const AVANZA_SEARCH_URL: &'static str = "https://www.avanza.se/_api/search/global-search?limit=10";

/// The start of the URL of a fund in Avanza's fund guide.
pub const AVANZA_FUND_GUIDE_URL: &'static str = "https://www.avanza.se/_api/fund-guide/guide/";

/// The search session that every search names.
pub const SEARCH_SESSION_ID: &'static str = "b1b431f8-2542-400b-bcc0-c594fa124493";

/// The JSON body of a search for `isin`.
pub open spec fn search_body(isin: Seq<char>) -> Seq<char> {
    json_object(
        seq![
            ("originPath"@, json_string_literal("/start"@)),
            ("query"@, json_string_literal(isin)),
            ("screenSize"@, json_string_literal("PHONE"@)),
            ("searchSessionId"@, json_string_literal(SEARCH_SESSION_ID@)),
        ],
    )
}

/// The JSON body posted to the search endpoint to look up `isin`.
pub fn prepare_avanza_search_body(isin: &String) -> (r: Result<String, JsonError>)
    ensures
        r matches Ok(t) && t@ == search_body(isin@),
{
    let origin = match json_string("/start") {
        Ok(t) => t,
        Err(e) => return Err(e),
    };
    let query = match json_string(isin.as_str()) {
        Ok(t) => t,
        Err(e) => return Err(e),
    };
    let screen = match json_string("PHONE") {
        Ok(t) => t,
        Err(e) => return Err(e),
    };
    let session = match json_string(SEARCH_SESSION_ID) {
        Ok(t) => t,
        Err(e) => return Err(e),
    };
    let entries = vec![
        (String::from_str("originPath"), origin),
        (String::from_str("query"), query),
        (String::from_str("screenSize"), screen),
        (String::from_str("searchSessionId"), session),
    ];
    proof {
        assert(entry_views(entries@) =~= seq![
            ("originPath"@, json_string_literal("/start"@)),
            ("query"@, json_string_literal(isin@)),
            ("screenSize"@, json_string_literal("PHONE"@)),
            ("searchSessionId"@, json_string_literal(SEARCH_SESSION_ID@)),
        ]);
    }
    json_object_of(&entries)
}

/// The fund-guide URL of the fund with the given order book id.
pub fn avanza_fund_info_url(orderbook_id: &String) -> (r: String)
    ensures
        r@ == AVANZA_FUND_GUIDE_URL@ + orderbook_id@,
{
    let mut url = String::from_str(AVANZA_FUND_GUIDE_URL);
    url.append(orderbook_id.as_str());
    url
}

/// The first hit of the first group of a search reply.
pub fn take_first_hit(result: AvanzaSearchResult) -> (r: Hit)
    requires
        result.result_groups@.len() > 0,
        result.result_groups@[0].hits@.len() > 0,
    ensures
        r == result.result_groups@[0].hits@[0],
{
    let mut groups = result.result_groups;
    let mut group = groups.remove(0);
    group.hits.remove(0)
}

/// The search body asks for the given isin, as a JSON string, with the
/// fixed origin, screen size and session:
/// `{"originPath":"/start","query":<isin>,"screenSize":"PHONE","searchSessionId":"b1b431f8-…"}`.
pub proof fn lemma_search_body_queries_isin(isin: Seq<char>)
    ensures
        search_body(isin) == "{\"originPath\":\"/start\",\"query\":"@ + json_string_literal(isin)
            + ",\"screenSize\":\"PHONE\",\"searchSessionId\":\"b1b431f8-2542-400b-bcc0-c594fa124493\"}"@,
{
    reveal_strlit("originPath");
    reveal_strlit("/start");
    reveal_strlit("query");
    reveal_strlit("screenSize");
    reveal_strlit("PHONE");
    reveal_strlit("searchSessionId");
    reveal_strlit("b1b431f8-2542-400b-bcc0-c594fa124493");
    reveal_strlit("{\"originPath\":\"/start\",\"query\":");
    reveal_strlit(",\"screenSize\":\"PHONE\",\"searchSessionId\":\"b1b431f8-2542-400b-bcc0-c594fa124493\"}");
    lemma_plain_json_string("originPath"@);
    lemma_plain_json_string("/start"@);
    lemma_plain_json_string("query"@);
    lemma_plain_json_string("screenSize"@);
    lemma_plain_json_string("PHONE"@);
    lemma_plain_json_string("searchSessionId"@);
    lemma_plain_json_string(SEARCH_SESSION_ID@);
    let m = json_members(
        seq![
            ("originPath"@, json_string_literal("/start"@)),
            ("query"@, json_string_literal(isin)),
            ("screenSize"@, json_string_literal("PHONE"@)),
            ("searchSessionId"@, json_string_literal(SEARCH_SESSION_ID@)),
        ],
    );
    assert(m.drop_last().drop_last().drop_last() =~= seq![m[0]]);
    assert(m.drop_last().drop_last() =~= seq![m[0], m[1]]);
    assert(m.drop_last() =~= seq![m[0], m[1], m[2]]);
    assert(join(seq![m[0]], seq![',']) == m[0]);
    assert(join(seq![m[0], m[1]], seq![',']) == m[0] + seq![','] + m[1]);
    assert(join(seq![m[0], m[1], m[2]], seq![',']) == m[0] + seq![','] + m[1] + seq![','] + m[2]);
    assert(join(m, seq![',']) == m[0] + seq![','] + m[1] + seq![','] + m[2] + seq![','] + m[3]);
    assert(search_body(isin) =~= "{\"originPath\":\"/start\",\"query\":"@ + json_string_literal(isin)
        + ",\"screenSize\":\"PHONE\",\"searchSessionId\":\"b1b431f8-2542-400b-bcc0-c594fa124493\"}"@);
}

} // verus!
