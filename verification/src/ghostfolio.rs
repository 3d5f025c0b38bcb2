//! What the Ghostfolio database is given for a new symbol: JSON documents
//! for countries, sectors and scraper settings, and the SQL that inserts it.

use vstd::prelude::*;
use crate::avanza::{AvanzaFundInfo, CountryChartDaum, SectorChartDaum};
use crate::json::{
    entry_views, is_plain_json_char, join, json_array, json_array_of, json_members, json_object,
    json_object_of, json_string, json_string_literal, lemma_join_push, lemma_plain_json_string, JsonError,
};
use crate::text::{
    all_latin1_upper, latin1_to_uppercase, latin1_upper, latin1_uppercase, replace_spaces,
    replace_spaces_with_underscores, same_text, str_to_uppercase, uppercase,
};

verus! {

/// The kind of instrument a symbol stands for.
#[derive(Debug, Clone, Copy, PartialEq, Eq, Structural)]
pub enum SymbolType {
    STOCK,
    MUTUALFUND,
}

impl SymbolType {
    /// The name under which the kind is written and read back.
    pub open spec fn label(self) -> Seq<char> {
        match self {
            SymbolType::STOCK => "STOCK"@,
            SymbolType::MUTUALFUND => "FUND"@,
        }
    }

    /// The kind of instrument that `label` names, if any.
    pub open spec fn from_label(label: Seq<char>) -> Option<SymbolType> {
        if label == "STOCK"@ {
            Some(SymbolType::STOCK)
        } else if label == "FUND"@ {
            Some(SymbolType::MUTUALFUND)
        } else {
            None
        }
    }

    /// Reads a kind of instrument from its name, `STOCK` or `FUND`.
    pub fn from_str(s: &str) -> (r: Self)
        requires
            Self::from_label(s@) is Some,
        ensures
            Self::from_label(s@) == Some(r),
    {
        if same_text(s, "STOCK") {
            SymbolType::STOCK
        } else {
            SymbolType::MUTUALFUND
        }
    }

    /// Reads a kind of instrument from its name; `None` for any other text.
    pub fn parse(s: &str) -> (r: Option<Self>)
        ensures
            r == Self::from_label(s@),
    {
        if same_text(s, "STOCK") {
            Some(SymbolType::STOCK)
        } else if same_text(s, "FUND") {
            Some(SymbolType::MUTUALFUND)
        } else {
            None
        }
    }

    /// The name of the kind: `STOCK` or `FUND`.
    pub fn display_name(&self) -> (r: String)
        ensures
            r@ == self.label(),
    {
        match self {
            SymbolType::STOCK => String::from_str("STOCK"),
            SymbolType::MUTUALFUND => String::from_str("FUND"),
        }
    }
}

/// Reading the name of a kind gives that kind back.
pub proof fn lemma_symbol_type_label_roundtrip(t: SymbolType)
    ensures
        SymbolType::from_label(t.label()) == Some(t),
{
    reveal_strlit("STOCK");
    reveal_strlit("FUND");
    assert("STOCK"@.len() != "FUND"@.len());
}

/// A name that reads as a kind is that kind's name.
pub proof fn lemma_symbol_type_parse_roundtrip(s: Seq<char>)
    ensures
        SymbolType::from_label(s) matches Some(t) ==> t.label() == s,
{
}

/// A symbol that the scraper follows.
#[derive(Debug, Clone, PartialEq)]
pub struct SymbolInfo {
    pub id: String,
    pub orderbook_id: String,
    pub symbol: String,
}

/// The start of the page URL stored for a symbol.
pub const FUND_PAGE_URL: &'static str = "https://www.avanza.se/fonder/om-fonden.html/";

/// The page URL stored for the symbol with the given order book id.
pub fn generate_url(orderbook_id: &String) -> (r: String)
    ensures
        r@ == FUND_PAGE_URL@ + orderbook_id@,
{
    let mut url = String::from_str(FUND_PAGE_URL);
    url.append(orderbook_id.as_str());
    url
}

/// The ticker derived from a name: spaces turned into underscores, then
/// upper case. A name of Latin-1 characters other than `µ`, `ß` and `ÿ` is
/// upper-cased character by character here; any other name by
/// `str::to_uppercase`.
pub open spec fn ticker_name(name: Seq<char>) -> Seq<char> {
    let replaced = replace_spaces(name);
    if all_latin1_upper(replaced) {
        latin1_uppercase(replaced)
    } else {
        uppercase(replaced)
    }
}

/// The ticker of a symbol: its name with spaces turned into underscores,
/// in upper case.
pub fn generate_ticker_name(name: &String) -> (r: String)
    ensures
        r@ == ticker_name(name@),
{
    let replaced = replace_spaces_with_underscores(name.as_str());
    match latin1_to_uppercase(replaced.as_str()) {
        Some(upper) => upper,
        None => str_to_uppercase(replaced.as_str()),
    }
}

/// The ticker of a name of Latin-1 characters other than `µ`, `ß` and `ÿ`
/// has the name's length; at each position a space becomes `_`, a
/// lower-case letter (`a`-`z`, `à`-`þ` but `÷`) its upper-case letter 32
/// code points below, and every other character stays.
pub proof fn lemma_ticker_of_latin1_name(name: Seq<char>)
    requires
        forall|i: int|
            0 <= i < name.len() ==> (#[trigger] name[i] as int) < 0xff && name[i] != '\u{b5}' && name[i]
                != '\u{df}',
    ensures
        ticker_name(name).len() == name.len(),
        forall|i: int|
            0 <= i < name.len() ==> #[trigger] ticker_name(name)[i] == if name[i] == ' ' {
                '_'
            } else if ('a' <= name[i] && name[i] <= 'z') || ('\u{e0}' <= name[i] && name[i] <= '\u{fe}'
                && name[i] != '\u{f7}') {
                ((name[i] as int) - 32) as char
            } else {
                name[i]
            },
{
    let replaced = replace_spaces(name);
    assert forall|i: int| 0 <= i < replaced.len() implies #[trigger] latin1_upper(replaced[i]) is Some by {
        assert(replaced[i] == if name[i] == ' ' { '_' } else { name[i] });
    }
}

/// The JSON object that records a country's weight.
pub open spec fn country_entry(c: CountryChartDaum) -> Seq<char> {
    json_object(seq![("code"@, json_string_literal(c.country_code@)), ("weight"@, c.weight@)])
}

/// The JSON array of the countries of a fund.
pub open spec fn country_json(countries: Seq<CountryChartDaum>) -> Seq<char> {
    json_array(Seq::new(countries.len(), |i: int| country_entry(countries[i])))
}

/// The JSON object that records a sector's weight.
pub open spec fn sector_entry(s: SectorChartDaum) -> Seq<char> {
    json_object(seq![("name"@, json_string_literal(s.name@)), ("weight"@, s.weight@)])
}

/// The JSON array of the sectors of a fund.
pub open spec fn sectors_json(sectors: Seq<SectorChartDaum>) -> Seq<char> {
    json_array(Seq::new(sectors.len(), |i: int| sector_entry(sectors[i])))
}

proof fn lemma_empty_array()
    ensures
        json_array(Seq::<Seq<char>>::empty()) == "[]"@,
{
    reveal_strlit("[]");
    assert(json_array(Seq::<Seq<char>>::empty()) =~= seq!['[', ']']);
}

fn country_entry_text(c: &CountryChartDaum) -> (r: Result<String, JsonError>)
    ensures
        r matches Ok(t) && t@ == country_entry(*c),
{
    let code = match json_string(c.country_code.as_str()) {
        Ok(t) => t,
        Err(e) => return Err(e),
    };
    let entries = vec![(String::from_str("code"), code), (String::from_str("weight"), c.weight.clone())];
    proof {
        assert(entry_views(entries@) =~= seq![("code"@, json_string_literal(c.country_code@)), ("weight"@, c.weight@)]);
    }
    json_object_of(&entries)
}

fn sector_entry_text(s: &SectorChartDaum) -> (r: Result<String, JsonError>)
    ensures
        r matches Ok(t) && t@ == sector_entry(*s),
{
    let name = match json_string(s.name.as_str()) {
        Ok(t) => t,
        Err(e) => return Err(e),
    };
    let entries = vec![(String::from_str("name"), name), (String::from_str("weight"), s.weight.clone())];
    proof {
        assert(entry_views(entries@) =~= seq![("name"@, json_string_literal(s.name@)), ("weight"@, s.weight@)]);
    }
    json_object_of(&entries)
}

/// The countries of a fund as a JSON array of `{"code", "weight"}` objects;
/// `[]` when the fund lists none.
pub fn generate_country_json(info: &AvanzaFundInfo) -> (r: String)
    ensures
        r@ == country_json(info.country_chart_data@),
        info.country_chart_data@.len() == 0 ==> r@ == "[]"@,
{
    let countries = &info.country_chart_data;
    if countries.len() == 0 {
        proof {
            lemma_empty_array();
            assert(Seq::new(0, |i: int| country_entry(countries@[i])) =~= Seq::<Seq<char>>::empty());
        }
        return String::from_str("[]");
    }
    let mut items: Vec<String> = Vec::new();
    let mut i: usize = 0;
    while i < countries.len()
        invariant
            i <= countries@.len(),
            items@.len() == i,
            forall|j: int| 0 <= j < i ==> #[trigger] items@[j]@ == country_entry(countries@[j]),
        decreases countries.len() - i,
    {
        let entry = match country_entry_text(&countries[i]) {
            Ok(t) => t,
            Err(_) => return String::new(),
        };
        items.push(entry);
        i = i + 1;
    }
    proof {
        assert(items@.map_values(|s: String| s@) =~= Seq::new(
            countries@.len(),
            |j: int| country_entry(countries@[j]),
        ));
    }
    json_array_of(&items)
}

/// The sectors of a fund as a JSON array of `{"name", "weight"}` objects;
/// `[]` when the fund lists none. It always succeeds.
pub fn generate_sectors_json(info: &AvanzaFundInfo) -> (r: Result<String, JsonError>)
    ensures
        r matches Ok(t) && t@ == sectors_json(info.sector_chart_data@),
        info.sector_chart_data@.len() == 0 ==> (r matches Ok(t) && t@ == "[]"@),
{
    let sectors = &info.sector_chart_data;
    if sectors.len() == 0 {
        proof {
            lemma_empty_array();
            assert(Seq::new(0, |i: int| sector_entry(sectors@[i])) =~= Seq::<Seq<char>>::empty());
        }
        return Ok(String::from_str("[]"));
    }
    let mut items: Vec<String> = Vec::new();
    let mut i: usize = 0;
    while i < sectors.len()
        invariant
            i <= sectors@.len(),
            items@.len() == i,
            forall|j: int| 0 <= j < i ==> #[trigger] items@[j]@ == sector_entry(sectors@[j]),
        decreases sectors.len() - i,
    {
        let entry = match sector_entry_text(&sectors[i]) {
            Ok(t) => t,
            Err(e) => return Err(e),
        };
        items.push(entry);
        i = i + 1;
    }
    proof {
        assert(items@.map_values(|s: String| s@) =~= Seq::new(
            sectors@.len(),
            |j: int| sector_entry(sectors@[j]),
        ));
    }
    Ok(json_array_of(&items))
}

/// The scraper settings stored for a symbol, as a JSON object.
pub open spec fn scraper_config_json(orderbook_id: Seq<char>, symbol_type: SymbolType) -> Seq<char> {
    json_object(
        seq![
            ("orderbook_id"@, json_string_literal(orderbook_id)),
            ("source"@, json_string_literal("avanza"@)),
            ("symbol_type"@, json_string_literal(symbol_type.label())),
        ],
    )
}

/// The scraper settings of a symbol: its source, order book id and kind,
/// as a JSON object. It always succeeds.
pub fn scraper_config(orderbook_id: &String, symbol_type: SymbolType) -> (r: Result<String, JsonError>)
    ensures
        r matches Ok(t) && t@ == scraper_config_json(orderbook_id@, symbol_type),
{
    let id = match json_string(orderbook_id.as_str()) {
        Ok(t) => t,
        Err(e) => return Err(e),
    };
    let source = match json_string("avanza") {
        Ok(t) => t,
        Err(e) => return Err(e),
    };
    let label = symbol_type.display_name();
    let kind = match json_string(label.as_str()) {
        Ok(t) => t,
        Err(e) => return Err(e),
    };
    let entries = vec![
        (String::from_str("orderbook_id"), id),
        (String::from_str("source"), source),
        (String::from_str("symbol_type"), kind),
    ];
    proof {
        assert(entry_views(entries@) =~= seq![
            ("orderbook_id"@, json_string_literal(orderbook_id@)),
            ("source"@, json_string_literal("avanza"@)),
            ("symbol_type"@, json_string_literal(symbol_type.label())),
        ]);
    }
    json_object_of(&entries)
}

/// Whether `s` is a random UUID as `Uuid::to_string` writes it: 36
/// characters, hyphens at 8, 13, 18 and 23, lower-case hex digits elsewhere,
/// version digit `4` and variant digit one of `8 9 a b`.
pub open spec fn is_uuid_v4_text(s: Seq<char>) -> bool {
    &&& s.len() == 36
    &&& forall|i: int|
        0 <= i < 36 ==> if i == 8 || i == 13 || i == 18 || i == 23 {
            s[i] == '-'
        } else {
            ('0' <= #[trigger] s[i] <= '9') || ('a' <= s[i] <= 'f')
        }
    &&& s[14] == '4'
    &&& (s[19] == '8' || s[19] == '9' || s[19] == 'a' || s[19] == 'b')
}

/// `Uuid::new_v4().to_string()`: a fresh random UUID. What is claimed of
/// it is only its textual shape; which UUID comes out is left open.
#[verifier::external_body]
pub(crate) fn generate_id() -> (r: String)
    ensures
        is_uuid_v4_text(r@),
{
    uuid::Uuid::new_v4().to_string()
}

pub const INSERT_FUND_QUERY_0: &'static str = "INSERT INTO public.\"SymbolProfile\" (countries, \"createdAt\", \"dataSource\", id, name, \"updatedAt\", symbol, sectors,\n                                    currency, \"assetClass\", \"assetSubClass\", \"symbolMapping\", \"scraperConfiguration\",\n                                    url, comment, isin)\nVALUES ('";
pub const INSERT_FUND_QUERY_1: &'static str = "', current_timestamp, 'MANUAL'::\"DataSource\", '";
pub const INSERT_FUND_QUERY_2: &'static str = "', '";
pub const INSERT_FUND_QUERY_3: &'static str = "',\n        current_timestamp, '";
pub const INSERT_FUND_QUERY_4: &'static str = "', '";
pub const INSERT_FUND_QUERY_5: &'static str = "', 'SEK',\n        'EQUITY'::\"AssetClass\", 'MUTUALFUND'::\"AssetSubClass\", null, '";
pub const INSERT_FUND_QUERY_6: &'static str = "',\n        '";
pub const INSERT_FUND_QUERY_7: &'static str = "', null, '";
pub const INSERT_FUND_QUERY_8: &'static str = "');\n";

/// The SQL text that inserts a fund's symbol profile with the given values
/// placed between the fixed parts of the statement.
pub open spec fn insert_fund_query(
    countries: Seq<char>,
    id: Seq<char>,
    name: Seq<char>,
    symbol: Seq<char>,
    sectors: Seq<char>,
    scraper_configuration: Seq<char>,
    url: Seq<char>,
    isin: Seq<char>,
) -> Seq<char> {
    INSERT_FUND_QUERY_0@ + countries + INSERT_FUND_QUERY_1@ + id + INSERT_FUND_QUERY_2@ + name
        + INSERT_FUND_QUERY_3@ + symbol + INSERT_FUND_QUERY_4@ + sectors + INSERT_FUND_QUERY_5@
        + scraper_configuration + INSERT_FUND_QUERY_6@ + url + INSERT_FUND_QUERY_7@ + isin
        + INSERT_FUND_QUERY_8@
}

/// The statement that inserts `info` under the symbol id `id`.
pub open spec fn fund_insert_statement(info: AvanzaFundInfo, orderbook_id: Seq<char>, id: Seq<char>) -> Seq<char> {
    insert_fund_query(
        country_json(info.country_chart_data@),
        id,
        info.name@,
        ticker_name(info.name@),
        sectors_json(info.sector_chart_data@),
        scraper_config_json(orderbook_id, SymbolType::MUTUALFUND),
        FUND_PAGE_URL@ + orderbook_id,
        info.isin@,
    )
}

/// The SQL that inserts a fund's symbol profile under the symbol id `id`.
/// It always succeeds.
pub fn prepare_insert_fund_with_id(info: &AvanzaFundInfo, orderbook_id: &String, id: &String) -> (r: Result<String, JsonError>)
    ensures
        r matches Ok(t) && t@ == fund_insert_statement(*info, orderbook_id@, id@),
{
    let countries = generate_country_json(info);
    let ticker = generate_ticker_name(&info.name);
    let sectors = match generate_sectors_json(info) {
        Ok(t) => t,
        Err(e) => return Err(e),
    };
    let scraper = match scraper_config(orderbook_id, SymbolType::MUTUALFUND) {
        Ok(t) => t,
        Err(e) => return Err(e),
    };
    let url = generate_url(orderbook_id);
    let mut query = String::from_str(INSERT_FUND_QUERY_0);
    query.append(countries.as_str());
    query.append(INSERT_FUND_QUERY_1);
    query.append(id.as_str());
    query.append(INSERT_FUND_QUERY_2);
    query.append(info.name.as_str());
    query.append(INSERT_FUND_QUERY_3);
    query.append(ticker.as_str());
    query.append(INSERT_FUND_QUERY_4);
    query.append(sectors.as_str());
    query.append(INSERT_FUND_QUERY_5);
    query.append(scraper.as_str());
    query.append(INSERT_FUND_QUERY_6);
    query.append(url.as_str());
    query.append(INSERT_FUND_QUERY_7);
    query.append(info.isin.as_str());
    query.append(INSERT_FUND_QUERY_8);
    Ok(query)
}

/// The SQL that inserts a fund's symbol profile under a freshly generated
/// random id. It always succeeds; the id is a random UUID in text form.
pub fn prepare_insert_fund(info: AvanzaFundInfo, orderbook_id: &String) -> (r: Result<String, JsonError>)
    ensures
        r is Ok,
        exists|id: Seq<char>|
            is_uuid_v4_text(id) && #[trigger] fund_insert_statement(info, orderbook_id@, id) == r->Ok_0@,
{
    let id = generate_id();
    let r = prepare_insert_fund_with_id(&info, orderbook_id, &id);
    proof {
        assert(fund_insert_statement(info, orderbook_id@, id@) == r->Ok_0@);
    }
    r
}

/// The statement that inserts a stock's symbol profile, with `$1` to `$8`
/// to be bound to the values that `prepare_insert_stock_symbol` returns.
pub const INSERT_SYMBOL_QUERY: &'static str = "INSERT INTO public.\"SymbolProfile\" (countries, \"createdAt\", \"dataSource\", id, name, \"updatedAt\", symbol, sectors,\n    currency, \"assetClass\", \"assetSubClass\", \"symbolMapping\", \"scraperConfiguration\",\n    url, comment, isin) VALUES \n    ($1, current_timestamp, 'MANUAL'::\"DataSource\", $2, $3, current_timestamp, $4, $5, 'SEK', 'EQUITY'::\"AssetClass\", 'MUTUALFUND'::\"AssetSubClass\", null, $6,\n$7, null, $8);\n";

/// The statement that inserts a symbol profile with bound values.
pub fn get_insert_symbol_query() -> (r: &'static str)
    ensures
        r@ == INSERT_SYMBOL_QUERY@,
{
    INSERT_SYMBOL_QUERY
}

/// The values bound to `$1` to `$8` of the symbol insert statement for a
/// stock with the given symbol id.
pub open spec fn stock_symbol_values(name: Seq<char>, orderbook_id: Seq<char>, isin: Seq<char>, id: Seq<char>) -> Seq<Seq<char>> {
    seq![
        "[]"@,
        id,
        name,
        ticker_name(name),
        "[]"@,
        scraper_config_json(orderbook_id, SymbolType::STOCK),
        FUND_PAGE_URL@ + orderbook_id,
        isin,
    ]
}

/// The values to bind to the symbol insert statement for a stock, under the
/// symbol id `id`. It always succeeds.
pub fn prepare_insert_stock_symbol_with_id(name: &String, orderbook_id: &String, isin: &String, id: &String) -> (r: Result<Vec<String>, JsonError>)
    ensures
        r matches Ok(v) && v@.map_values(|s: String| s@) == stock_symbol_values(name@, orderbook_id@, isin@, id@),
{
    let scraper = match scraper_config(orderbook_id, SymbolType::STOCK) {
        Ok(t) => t,
        Err(e) => return Err(e),
    };
    let values = vec![
        String::from_str("[]"),
        id.clone(),
        name.clone(),
        generate_ticker_name(name),
        String::from_str("[]"),
        scraper,
        generate_url(orderbook_id),
        isin.clone(),
    ];
    proof {
        assert(values@.map_values(|s: String| s@) =~= stock_symbol_values(name@, orderbook_id@, isin@, id@));
    }
    Ok(values)
}

/// The values to bind to the symbol insert statement for a stock, under a
/// freshly generated random id. It always succeeds.
pub fn prepare_insert_stock_symbol(name: &String, orderbook_id: &String, isin: &String) -> (r: Result<Vec<String>, JsonError>)
    ensures
        r is Ok,
        exists|id: Seq<char>|
            is_uuid_v4_text(id) && #[trigger] stock_symbol_values(name@, orderbook_id@, isin@, id)
                == r->Ok_0@.map_values(|s: String| s@),
{
    let id = generate_id();
    let r = prepare_insert_stock_symbol_with_id(name, orderbook_id, isin, &id);
    proof {
        assert(stock_symbol_values(name@, orderbook_id@, isin@, id@) == r->Ok_0@.map_values(|s: String| s@));
    }
    r
}

proof fn lemma_two_member_object(k0: Seq<char>, v0: Seq<char>, k1: Seq<char>, v1: Seq<char>)
    ensures
        json_object(seq![(k0, v0), (k1, v1)]) == seq!['{'] + json_string_literal(k0) + seq![':'] + v0
            + seq![','] + json_string_literal(k1) + seq![':'] + v1 + seq!['}'],
{
    let m = json_members(seq![(k0, v0), (k1, v1)]);
    assert(m.drop_last() =~= seq![m[0]]);
    assert(join(seq![m[0]], seq![',']) == m[0]);
    assert(join(m, seq![',']) == m[0] + seq![','] + m[1]);
    assert(json_object(seq![(k0, v0), (k1, v1)]) =~= seq!['{'] + json_string_literal(k0) + seq![':']
        + v0 + seq![','] + json_string_literal(k1) + seq![':'] + v1 + seq!['}']);
}

/// The JSON object of a sector holds the sector's own name, as a JSON
/// string, under `name` and its weight under `weight`.
pub proof fn lemma_sector_entry_names_the_sector(s: SectorChartDaum)
    ensures
        sector_entry(s) == "{\"name\":"@ + json_string_literal(s.name@) + ",\"weight\":"@ + s.weight@ + "}"@,
{
    reveal_strlit("name");
    reveal_strlit("weight");
    reveal_strlit("{\"name\":");
    reveal_strlit(",\"weight\":");
    reveal_strlit("}");
    lemma_plain_json_string("name"@);
    lemma_plain_json_string("weight"@);
    lemma_two_member_object("name"@, json_string_literal(s.name@), "weight"@, s.weight@);
    assert(sector_entry(s) =~= "{\"name\":"@ + json_string_literal(s.name@) + ",\"weight\":"@ + s.weight@ + "}"@);
}

/// A sector name with no quote, backslash or control character stands in
/// its JSON object as it is: `{"name":"<name>","weight":<weight>}`.
pub proof fn lemma_sector_entry_plain_name(s: SectorChartDaum)
    requires
        forall|i: int| 0 <= i < s.name@.len() ==> is_plain_json_char(#[trigger] s.name@[i]),
    ensures
        sector_entry(s) == "{\"name\":\""@ + s.name@ + "\",\"weight\":"@ + s.weight@ + "}"@,
{
    lemma_sector_entry_names_the_sector(s);
    lemma_plain_json_string(s.name@);
    reveal_strlit("{\"name\":");
    reveal_strlit("{\"name\":\"");
    reveal_strlit(",\"weight\":");
    reveal_strlit("\",\"weight\":");
    assert(sector_entry(s) =~= "{\"name\":\""@ + s.name@ + "\",\"weight\":"@ + s.weight@ + "}"@);
}

/// The JSON object of a country holds the country's own code, as a JSON
/// string, under `code` and its weight under `weight`.
pub proof fn lemma_country_entry_names_the_country(c: CountryChartDaum)
    ensures
        country_entry(c) == "{\"code\":"@ + json_string_literal(c.country_code@) + ",\"weight\":"@ + c.weight@
            + "}"@,
{
    reveal_strlit("code");
    reveal_strlit("weight");
    reveal_strlit("{\"code\":");
    reveal_strlit(",\"weight\":");
    reveal_strlit("}");
    lemma_plain_json_string("code"@);
    lemma_plain_json_string("weight"@);
    lemma_two_member_object("code"@, json_string_literal(c.country_code@), "weight"@, c.weight@);
    assert(country_entry(c) =~= "{\"code\":"@ + json_string_literal(c.country_code@) + ",\"weight\":"@
        + c.weight@ + "}"@);
}

/// A country code with no quote, backslash or control character stands in
/// its JSON object as it is: `{"code":"<code>","weight":<weight>}`.
pub proof fn lemma_country_entry_plain_code(c: CountryChartDaum)
    requires
        forall|i: int| 0 <= i < c.country_code@.len() ==> is_plain_json_char(#[trigger] c.country_code@[i]),
    ensures
        country_entry(c) == "{\"code\":\""@ + c.country_code@ + "\",\"weight\":"@ + c.weight@ + "}"@,
{
    lemma_country_entry_names_the_country(c);
    lemma_plain_json_string(c.country_code@);
    reveal_strlit("{\"code\":");
    reveal_strlit("{\"code\":\"");
    reveal_strlit(",\"weight\":");
    reveal_strlit("\",\"weight\":");
    assert(country_entry(c) =~= "{\"code\":\""@ + c.country_code@ + "\",\"weight\":"@ + c.weight@ + "}"@);
}

/// The sectors JSON is `[]` for no sectors, `[<entry>]` for one, and one
/// more sector adds `,<entry>` before the closing bracket.
pub proof fn lemma_sectors_json_shape(sectors: Seq<SectorChartDaum>, s: SectorChartDaum)
    ensures
        sectors_json(Seq::empty()) == "[]"@,
        sectors_json(seq![s]) == seq!['['] + sector_entry(s) + seq![']'],
        sectors.len() > 0 ==> sectors_json(sectors.push(s)) == sectors_json(sectors).drop_last() + seq![',']
            + sector_entry(s) + seq![']'],
{
    lemma_empty_array();
    assert(Seq::new(0, |i: int| sector_entry(Seq::<SectorChartDaum>::empty()[i])) =~= Seq::<Seq<char>>::empty());
    let one = Seq::new(1, |i: int| sector_entry(seq![s][i]));
    assert(one =~= Seq::<Seq<char>>::empty().push(sector_entry(s)));
    lemma_join_push(Seq::<Seq<char>>::empty(), seq![','], sector_entry(s));
    assert(sectors_json(seq![s]) =~= seq!['['] + sector_entry(s) + seq![']']);
    if sectors.len() > 0 {
        let before = Seq::new(sectors.len(), |i: int| sector_entry(sectors[i]));
        let after = Seq::new(sectors.push(s).len(), |i: int| sector_entry(sectors.push(s)[i]));
        assert(after =~= before.push(sector_entry(s)));
        lemma_join_push(before, seq![','], sector_entry(s));
        assert(sectors_json(sectors).drop_last() =~= seq!['['] + join(before, seq![',']));
        assert(sectors_json(sectors.push(s)) =~= sectors_json(sectors).drop_last() + seq![','] + sector_entry(s)
            + seq![']']);
    }
}

/// The countries JSON is `[]` for no countries, `[<entry>]` for one, and
/// one more country adds `,<entry>` before the closing bracket.
pub proof fn lemma_country_json_shape(countries: Seq<CountryChartDaum>, c: CountryChartDaum)
    ensures
        country_json(Seq::empty()) == "[]"@,
        country_json(seq![c]) == seq!['['] + country_entry(c) + seq![']'],
        countries.len() > 0 ==> country_json(countries.push(c)) == country_json(countries).drop_last()
            + seq![','] + country_entry(c) + seq![']'],
{
    lemma_empty_array();
    assert(Seq::new(0, |i: int| country_entry(Seq::<CountryChartDaum>::empty()[i])) =~= Seq::<Seq<char>>::empty());
    let one = Seq::new(1, |i: int| country_entry(seq![c][i]));
    assert(one =~= Seq::<Seq<char>>::empty().push(country_entry(c)));
    lemma_join_push(Seq::<Seq<char>>::empty(), seq![','], country_entry(c));
    assert(country_json(seq![c]) =~= seq!['['] + country_entry(c) + seq![']']);
    if countries.len() > 0 {
        let before = Seq::new(countries.len(), |i: int| country_entry(countries[i]));
        let after = Seq::new(countries.push(c).len(), |i: int| country_entry(countries.push(c)[i]));
        assert(after =~= before.push(country_entry(c)));
        lemma_join_push(before, seq![','], country_entry(c));
        assert(country_json(countries).drop_last() =~= seq!['['] + join(before, seq![',']));
        assert(country_json(countries.push(c)) =~= country_json(countries).drop_last() + seq![',']
            + country_entry(c) + seq![']']);
    }
}

/// Whether `part` stands in `text` from position `p` on.
pub open spec fn holds_at(text: Seq<char>, part: Seq<char>, p: int) -> bool {
    0 <= p && p + part.len() <= text.len() && text.subrange(p, p + part.len()) == part
}

pub(crate) proof fn lemma_holds_at_middle(a: Seq<char>, b: Seq<char>, c: Seq<char>)
    ensures
        holds_at(a + b + c, b, a.len() as int),
{
    assert((a + b + c).subrange(a.len() as int, a.len() as int + b.len()) =~= b);
}

/// The fund insert statement carries the symbol id followed by the fund's
/// name unchanged, each between the quotes of its column.
pub proof fn lemma_fund_statement_carries_name(info: AvanzaFundInfo, orderbook_id: Seq<char>, id: Seq<char>)
    ensures
        exists|p: int| holds_at(
            fund_insert_statement(info, orderbook_id, id),
            id + "', '"@ + info.name@ + "',\n        current_timestamp, '"@,
            p,
        ),
{
    let stmt = fund_insert_statement(info, orderbook_id, id);
    let a = INSERT_FUND_QUERY_0@ + country_json(info.country_chart_data@) + INSERT_FUND_QUERY_1@;
    let slot = id + "', '"@ + info.name@ + "',\n        current_timestamp, '"@;
    let c = ticker_name(info.name@) + INSERT_FUND_QUERY_4@ + sectors_json(info.sector_chart_data@)
        + INSERT_FUND_QUERY_5@ + scraper_config_json(orderbook_id, SymbolType::MUTUALFUND)
        + INSERT_FUND_QUERY_6@ + (FUND_PAGE_URL@ + orderbook_id) + INSERT_FUND_QUERY_7@ + info.isin@
        + INSERT_FUND_QUERY_8@;
    assert(stmt =~= a + slot + c);
    lemma_holds_at_middle(a, slot, c);
}

/// The fund insert statement ends with the fund's isin unchanged, between
/// the quotes of its column.
pub proof fn lemma_fund_statement_ends_with_isin(info: AvanzaFundInfo, orderbook_id: Seq<char>, id: Seq<char>)
    ensures
        exists|p: int| holds_at(
            fund_insert_statement(info, orderbook_id, id),
            "', null, '"@ + info.isin@ + "');\n"@,
            p,
        ) && p + ("', null, '"@ + info.isin@ + "');\n"@).len() == fund_insert_statement(
            info,
            orderbook_id,
            id,
        ).len(),
{
    let stmt = fund_insert_statement(info, orderbook_id, id);
    let a = INSERT_FUND_QUERY_0@ + country_json(info.country_chart_data@) + INSERT_FUND_QUERY_1@ + id
        + INSERT_FUND_QUERY_2@ + info.name@ + INSERT_FUND_QUERY_3@ + ticker_name(info.name@)
        + INSERT_FUND_QUERY_4@ + sectors_json(info.sector_chart_data@) + INSERT_FUND_QUERY_5@
        + scraper_config_json(orderbook_id, SymbolType::MUTUALFUND) + INSERT_FUND_QUERY_6@ + (FUND_PAGE_URL@
        + orderbook_id);
    let tail = "', null, '"@ + info.isin@ + "');\n"@;
    assert(stmt =~= a + tail + Seq::empty());
    lemma_holds_at_middle(a, tail, Seq::empty());
}

/// The values bound for a stock carry its symbol id, name and isin unchanged
/// as `$2`, `$3` and `$8`.
pub proof fn lemma_stock_values_carry_inputs(name: Seq<char>, orderbook_id: Seq<char>, isin: Seq<char>, id: Seq<char>)
    ensures
        stock_symbol_values(name, orderbook_id, isin, id).len() == 8,
        stock_symbol_values(name, orderbook_id, isin, id)[1] == id,
        stock_symbol_values(name, orderbook_id, isin, id)[2] == name,
        stock_symbol_values(name, orderbook_id, isin, id)[7] == isin,
{
}

/// The scraper settings hold the order book id, as a JSON string, the source
/// `avanza` and the name of the kind:
/// `{"orderbook_id":<id>,"source":"avanza","symbol_type":"<STOCK or FUND>"}`.
pub proof fn lemma_scraper_config_holds_id_and_kind(orderbook_id: Seq<char>, symbol_type: SymbolType)
    ensures
        scraper_config_json(orderbook_id, symbol_type) == "{\"orderbook_id\":"@ + json_string_literal(
            orderbook_id,
        ) + ",\"source\":\"avanza\",\"symbol_type\":\""@ + symbol_type.label() + "\"}"@,
{
    reveal_strlit("orderbook_id");
    reveal_strlit("source");
    reveal_strlit("avanza");
    reveal_strlit("symbol_type");
    reveal_strlit("STOCK");
    reveal_strlit("FUND");
    reveal_strlit("{\"orderbook_id\":");
    reveal_strlit(",\"source\":\"avanza\",\"symbol_type\":\"");
    reveal_strlit("\"}");
    lemma_plain_json_string("orderbook_id"@);
    lemma_plain_json_string("source"@);
    lemma_plain_json_string("avanza"@);
    lemma_plain_json_string("symbol_type"@);
    lemma_plain_json_string(symbol_type.label());
    let m = json_members(
        seq![
            ("orderbook_id"@, json_string_literal(orderbook_id)),
            ("source"@, json_string_literal("avanza"@)),
            ("symbol_type"@, json_string_literal(symbol_type.label())),
        ],
    );
    assert(m.drop_last().drop_last() =~= seq![m[0]]);
    assert(m.drop_last() =~= seq![m[0], m[1]]);
    assert(join(seq![m[0]], seq![',']) == m[0]);
    assert(join(seq![m[0], m[1]], seq![',']) == m[0] + seq![','] + m[1]);
    assert(join(m, seq![',']) == m[0] + seq![','] + m[1] + seq![','] + m[2]);
    assert(scraper_config_json(orderbook_id, symbol_type) =~= "{\"orderbook_id\":"@ + json_string_literal(
        orderbook_id,
    ) + ",\"source\":\"avanza\",\"symbol_type\":\""@ + symbol_type.label() + "\"}"@);
}

} // verus!
