//! The fund-only variant of the import: scraper settings without the kind
//! of instrument, and ticker lists that keep the export's order, only
//! dropping repeats that follow each other.

use vstd::prelude::*;
use crate::avanza::AvanzaFundInfo;
use crate::ghostfolio::{
    country_json, generate_country_json, generate_sectors_json, generate_url, insert_fund_query,
    is_uuid_v4_text, sectors_json, ticker_name, FUND_PAGE_URL, INSERT_FUND_QUERY_0, INSERT_FUND_QUERY_1,
    INSERT_FUND_QUERY_2, INSERT_FUND_QUERY_3, INSERT_FUND_QUERY_4, INSERT_FUND_QUERY_5,
    INSERT_FUND_QUERY_6, INSERT_FUND_QUERY_7, INSERT_FUND_QUERY_8, holds_at, lemma_holds_at_middle,
};
use crate::json::{entry_views, join, json_members, lemma_plain_json_string, json_object, json_object_of, json_string, json_string_literal, JsonError};
use crate::tickers::{
    column_values, csv_header_row, csv_record_rows, extract_column_from_csn, find_column, header_index,
    read_csv_headers, read_csv_records, row_view, rows_reach, rows_view, strings_view,
};

verus! {

/// The scraper settings of a fund: its source and order book id.
pub open spec fn scraper_config_json(orderbook_id: Seq<char>) -> Seq<char> {
    json_object(
        seq![
            ("orderbook_id"@, json_string_literal(orderbook_id)),
            ("source"@, json_string_literal("avanza"@)),
        ],
    )
}

/// The scraper settings of a fund as a JSON object. It always succeeds.
pub fn scraper_config(orderbook_id: &String) -> (r: Result<String, JsonError>)
    ensures
        r matches Ok(t) && t@ == scraper_config_json(orderbook_id@),
{
    let id = match json_string(orderbook_id.as_str()) {
        Ok(t) => t,
        Err(e) => return Err(e),
    };
    let source = match json_string("avanza") {
        Ok(t) => t,
        Err(e) => return Err(e),
    };
    let entries = vec![(String::from_str("orderbook_id"), id), (String::from_str("source"), source)];
    proof {
        assert(entry_views(entries@) =~= seq![
            ("orderbook_id"@, json_string_literal(orderbook_id@)),
            ("source"@, json_string_literal("avanza"@)),
        ]);
    }
    json_object_of(&entries)
}

/// The ticker of a fund: its name with spaces turned into underscores, in
/// upper case.
pub fn generate_ticker_name(info: &AvanzaFundInfo) -> (r: String)
    ensures
        r@ == ticker_name(info.name@),
{
    crate::ghostfolio::generate_ticker_name(&info.name)
}

/// The statement that inserts `info` under the symbol id `id`.
pub open spec fn fund_insert_statement(info: AvanzaFundInfo, orderbook_id: Seq<char>, id: Seq<char>) -> Seq<char> {
    insert_fund_query(
        country_json(info.country_chart_data@),
        id,
        info.name@,
        ticker_name(info.name@),
        sectors_json(info.sector_chart_data@),
        scraper_config_json(orderbook_id),
        FUND_PAGE_URL@ + orderbook_id,
        info.isin@,
    )
}

/// The SQL that inserts a fund's symbol profile under the symbol id `id`.
/// It always succeeds.
pub fn prepare_insert_fund_with_id(info: &AvanzaFundInfo, orderbook_id: &String, id: &String) -> (r: Result<String, JsonError>)
    ensures
        r matches Ok(t) && t@ == fund_insert_statement(*info, orderbook_id@, id@),
{
    let countries = generate_country_json(info);
    let ticker = generate_ticker_name(info);
    let sectors = match generate_sectors_json(info) {
        Ok(t) => t,
        Err(e) => return Err(e),
    };
    let scraper = match scraper_config(orderbook_id) {
        Ok(t) => t,
        Err(e) => return Err(e),
    };
    let url = generate_url(orderbook_id);
    let mut query = String::from_str(INSERT_FUND_QUERY_0);
    query.append(countries.as_str());
    query.append(INSERT_FUND_QUERY_1);
    query.append(id.as_str());
    query.append(INSERT_FUND_QUERY_2);
    query.append(info.name.as_str());
    query.append(INSERT_FUND_QUERY_3);
    query.append(ticker.as_str());
    query.append(INSERT_FUND_QUERY_4);
    query.append(sectors.as_str());
    query.append(INSERT_FUND_QUERY_5);
    query.append(scraper.as_str());
    query.append(INSERT_FUND_QUERY_6);
    query.append(url.as_str());
    query.append(INSERT_FUND_QUERY_7);
    query.append(info.isin.as_str());
    query.append(INSERT_FUND_QUERY_8);
    Ok(query)
}

/// The SQL that inserts a fund's symbol profile under a freshly generated
/// random id. It always succeeds.
pub fn prepare_insert_fund(info: AvanzaFundInfo, orderbook_id: &String) -> (r: Result<String, JsonError>)
    ensures
        r is Ok,
        exists|id: Seq<char>|
            is_uuid_v4_text(id) && #[trigger] fund_insert_statement(info, orderbook_id@, id) == r->Ok_0@,
{
    let id = crate::ghostfolio::generate_id();
    let r = prepare_insert_fund_with_id(&info, orderbook_id, &id);
    proof {
        assert(fund_insert_statement(info, orderbook_id@, id@) == r->Ok_0@);
    }
    r
}

/// `s` with every item that equals the one before it left out.
pub open spec fn dedup(s: Seq<Seq<char>>) -> Seq<Seq<char>>
    decreases s.len(),
{
    if s.len() == 0 {
        s
    } else {
        let d = dedup(s.drop_last());
        if s.len() >= 2 && s[s.len() - 2] == s.last() {
            d
        } else {
            d.push(s.last())
        }
    }
}

proof fn lemma_dedup_last(s: Seq<Seq<char>>)
    requires
        s.len() > 0,
    ensures
        dedup(s).len() > 0,
        dedup(s).last() == s.last(),
    decreases s.len(),
{
    if s.len() >= 2 && s[s.len() - 2] == s.last() {
        lemma_dedup_last(s.drop_last());
    }
}

/// The tickers of a table whose first column named `isin_column` exists and
/// whose records that were read all reach it: the values of that column in
/// order, records that were not read and `-` left out, and a value dropped
/// where it repeats the one before.
pub fn get_tickers_from_table(
    headers: &Vec<String>,
    rows: &Vec<Option<Vec<String>>>,
    isin_column: &String,
) -> (r: Vec<String>)
    requires
        header_index(strings_view(headers@), isin_column@) >= 0,
        rows_reach(rows_view(rows@), header_index(strings_view(headers@), isin_column@)),
    ensures
        strings_view(r@) == dedup(
            column_values(rows_view(rows@), header_index(strings_view(headers@), isin_column@)),
        ),
{
    let idx = match find_column(headers, isin_column) {
        Some(i) => i,
        None => return Vec::new(),
    };
    let ghost rv = rows_view(rows@);
    let dash = String::from_str("-");
    let mut result: Vec<String> = Vec::new();
    let mut i: usize = 0;
    proof {
        assert(strings_view(result@) =~= dedup(column_values(rv.take(0), idx as int)));
    }
    while i < rows.len()
        invariant
            i <= rows@.len(),
            rv == rows_view(rows@),
            idx == header_index(strings_view(headers@), isin_column@),
            rows_reach(rv, idx as int),
            dash@ == "-"@,
            strings_view(result@) == dedup(column_values(rv.take(i as int), idx as int)),
        decreases rows.len() - i,
    {
        let ghost prev = column_values(rv.take(i as int), idx as int);
        proof {
            assert(rv.take(i + 1).drop_last() =~= rv.take(i as int));
            assert(rv[i as int] == row_view(rows@[i as int]));
        }
        match &rows[i] {
            Some(row) => {
                proof {
                    assert(rv[i as int] matches Some(rw) && idx < rw.len());
                    assert(rv[i as int] == Some(strings_view(row@)));
                }
                let value = extract_column_from_csn(idx, row);
                proof {
                    assert(strings_view(row@)[idx as int] == value@);
                }
                if !(value == dash) {
                    proof {
                        assert(column_values(rv.take(i + 1), idx as int) == prev.push(value@));
                        assert(prev.push(value@).drop_last() =~= prev);
                        if prev.len() > 0 {
                            lemma_dedup_last(prev);
                        }
                    }
                    let n = result.len();
                    if n == 0 || !(result[n - 1] == value) {
                        result.push(value);
                        proof {
                            assert(strings_view(result@) =~= dedup(prev).push(prev.push(value@).last()));
                        }
                    }
                } else {
                    proof {
                        assert(column_values(rv.take(i + 1), idx as int) == prev);
                    }
                }
            },
            None => {
                proof {
                    assert(column_values(rv.take(i + 1), idx as int) == prev);
                }
            },
        }
        i = i + 1;
    }
    proof {
        assert(rv.take(rows@.len() as int) =~= rv);
    }
    result
}

/// The tickers of a `;`-separated CSV export, read from its column named
/// `isin_column`, in the export's order with repeats that follow each other
/// dropped. `None` when the header row cannot be read, no column has that
/// name, or a record that was read is too short.
pub fn get_tickers_from_csv(data: &[u8], isin_column: &String) -> (r: Option<Vec<String>>)
    ensures
        r is Some <==> (csv_header_row(data@) matches Some(h) && header_index(h, isin_column@) >= 0
            && rows_reach(csv_record_rows(data@), header_index(h, isin_column@))),
        r matches Some(t) ==> (csv_header_row(data@) matches Some(h) && strings_view(t@) == dedup(
            column_values(csv_record_rows(data@), header_index(h, isin_column@)),
        )),
{
    let headers = match read_csv_headers(data) {
        Some(h) => h,
        None => return None,
    };
    let idx = match find_column(&headers, isin_column) {
        Some(i) => i,
        None => return None,
    };
    let rows = read_csv_records(data);
    let ghost rv = rows_view(rows@);
    let mut i: usize = 0;
    while i < rows.len()
        invariant
            i <= rows@.len(),
            rv == rows_view(rows@),
            rv == csv_record_rows(data@),
            csv_header_row(data@) == Some(strings_view(headers@)),
            idx == header_index(strings_view(headers@), isin_column@),
            forall|k: int| 0 <= k < i ==> (#[trigger] rv[k] matches Some(row) ==> 0 <= idx < row.len()),
        decreases rows.len() - i,
    {
        proof {
            assert(rv[i as int] == row_view(rows@[i as int]));
        }
        match &rows[i] {
            Some(row) => {
                if row.len() <= idx {
                    proof {
                        assert(rv[i as int] == Some(strings_view(row@)));
                        assert(strings_view(row@).len() == row@.len());
                        assert(!(rv[i as int] matches Some(rw) ==> 0 <= idx < rw.len()));
                        assert(!rows_reach(rv, idx as int));
                    }
                    return None;
                }
            },
            None => {},
        }
        i = i + 1;
    }
    Some(get_tickers_from_table(&headers, &rows, isin_column))
}

/// The tickers looked up first: the second and third of the list.
pub fn tickers_to_search(tickers: &Vec<String>) -> (r: Vec<String>)
    requires
        tickers@.len() >= 3,
    ensures
        strings_view(r@) == strings_view(tickers@).subrange(1, 3),
{
    let r = vec![tickers[1].clone(), tickers[2].clone()];
    proof {
        assert(strings_view(r@) =~= strings_view(tickers@).subrange(1, 3));
    }
    r
}

/// No two neighbouring items of a list with repeats dropped are equal.
pub proof fn lemma_dedup_no_adjacent_repeats(s: Seq<Seq<char>>)
    ensures
        forall|i: int| 0 <= i < dedup(s).len() - 1 ==> #[trigger] dedup(s)[i] != dedup(s)[i + 1],
    decreases s.len(),
{
    if s.len() > 0 {
        let rest = s.drop_last();
        lemma_dedup_no_adjacent_repeats(rest);
        let d = dedup(rest);
        if !(s.len() >= 2 && s[s.len() - 2] == s.last()) {
            if rest.len() > 0 {
                lemma_dedup_last(rest);
                assert(rest.last() == s[s.len() - 2]);
            }
            assert forall|i: int| 0 <= i < dedup(s).len() - 1 implies #[trigger] dedup(s)[i] != dedup(s)[i + 1] by {
                if i < d.len() - 1 {
                    assert(dedup(s)[i] == d[i]);
                    assert(dedup(s)[i + 1] == d[i + 1]);
                } else {
                    assert(dedup(s)[i] == d.last());
                }
            }
        }
    }
}

/// The fund insert statement carries the symbol id followed by the fund's
/// name unchanged, each between the quotes of its column.
pub proof fn lemma_fund_statement_carries_name(info: AvanzaFundInfo, orderbook_id: Seq<char>, id: Seq<char>)
    ensures
        exists|p: int| holds_at(
            fund_insert_statement(info, orderbook_id, id),
            id + "', '"@ + info.name@ + "',\n        current_timestamp, '"@,
            p,
        ),
{
    let stmt = fund_insert_statement(info, orderbook_id, id);
    let a = INSERT_FUND_QUERY_0@ + country_json(info.country_chart_data@) + INSERT_FUND_QUERY_1@;
    let slot = id + "', '"@ + info.name@ + "',\n        current_timestamp, '"@;
    let c = ticker_name(info.name@) + INSERT_FUND_QUERY_4@ + sectors_json(info.sector_chart_data@)
        + INSERT_FUND_QUERY_5@ + scraper_config_json(orderbook_id) + INSERT_FUND_QUERY_6@ + (FUND_PAGE_URL@
        + orderbook_id) + INSERT_FUND_QUERY_7@ + info.isin@ + INSERT_FUND_QUERY_8@;
    assert(stmt =~= a + slot + c);
    lemma_holds_at_middle(a, slot, c);
}

/// The fund insert statement ends with the fund's isin unchanged, between
/// the quotes of its column.
pub proof fn lemma_fund_statement_ends_with_isin(info: AvanzaFundInfo, orderbook_id: Seq<char>, id: Seq<char>)
    ensures
        exists|p: int| holds_at(
            fund_insert_statement(info, orderbook_id, id),
            "', null, '"@ + info.isin@ + "');\n"@,
            p,
        ) && p + ("', null, '"@ + info.isin@ + "');\n"@).len() == fund_insert_statement(
            info,
            orderbook_id,
            id,
        ).len(),
{
    let stmt = fund_insert_statement(info, orderbook_id, id);
    let a = INSERT_FUND_QUERY_0@ + country_json(info.country_chart_data@) + INSERT_FUND_QUERY_1@ + id
        + INSERT_FUND_QUERY_2@ + info.name@ + INSERT_FUND_QUERY_3@ + ticker_name(info.name@)
        + INSERT_FUND_QUERY_4@ + sectors_json(info.sector_chart_data@) + INSERT_FUND_QUERY_5@
        + scraper_config_json(orderbook_id) + INSERT_FUND_QUERY_6@ + (FUND_PAGE_URL@ + orderbook_id);
    let tail = "', null, '"@ + info.isin@ + "');\n"@;
    assert(stmt =~= a + tail + Seq::empty());
    lemma_holds_at_middle(a, tail, Seq::empty());
}

/// The scraper settings hold the order book id, as a JSON string, and the
/// source `avanza`: `{"orderbook_id":<id>,"source":"avanza"}`.
pub proof fn lemma_scraper_config_holds_id(orderbook_id: Seq<char>)
    ensures
        scraper_config_json(orderbook_id) == "{\"orderbook_id\":"@ + json_string_literal(orderbook_id)
            + ",\"source\":\"avanza\"}"@,
{
    reveal_strlit("orderbook_id");
    reveal_strlit("source");
    reveal_strlit("avanza");
    reveal_strlit("{\"orderbook_id\":");
    reveal_strlit(",\"source\":\"avanza\"}");
    lemma_plain_json_string("orderbook_id"@);
    lemma_plain_json_string("source"@);
    lemma_plain_json_string("avanza"@);
    let m = json_members(seq![("orderbook_id"@, json_string_literal(orderbook_id)), ("source"@, json_string_literal("avanza"@))]);
    assert(m.drop_last() =~= seq![m[0]]);
    assert(join(seq![m[0]], seq![',']) == m[0]);
    assert(scraper_config_json(orderbook_id) =~= "{\"orderbook_id\":"@ + json_string_literal(orderbook_id)
        + ",\"source\":\"avanza\"}"@);
}

/// Dropping repeats keeps every value of the list and adds none.
pub proof fn lemma_dedup_same_values(s: Seq<Seq<char>>)
    ensures
        forall|x: Seq<char>| #[trigger] dedup(s).contains(x) <==> s.contains(x),
    decreases s.len(),
{
    if s.len() > 0 {
        let rest = s.drop_last();
        lemma_dedup_same_values(rest);
        let d = dedup(rest);
        assert forall|x: Seq<char>| #[trigger] dedup(s).contains(x) <==> s.contains(x) by {
            if dedup(s).contains(x) {
                let k = choose|k: int| 0 <= k < dedup(s).len() && dedup(s)[k] == x;
                if k < d.len() {
                    assert(d[k] == x);
                    assert(d.contains(x));
                    let j = choose|j: int| 0 <= j < rest.len() && rest[j] == x;
                    assert(s[j] == x);
                } else {
                    assert(s[s.len() - 1] == x);
                }
            }
            if s.contains(x) {
                let j = choose|j: int| 0 <= j < s.len() && s[j] == x;
                if j < rest.len() {
                    assert(rest[j] == x);
                    assert(rest.contains(x));
                    assert(d.contains(x));
                    let k = choose|k: int| 0 <= k < d.len() && d[k] == x;
                    assert(dedup(s)[k] == x);
                } else if s.len() >= 2 && s[s.len() - 2] == s.last() {
                    assert(rest[rest.len() - 1] == x);
                    assert(rest.contains(x));
                    assert(d.contains(x));
                } else {
                    assert(dedup(s)[dedup(s).len() - 1] == x);
                }
            }
        }
    }
}

} // verus!
