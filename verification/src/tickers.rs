//! Ticker lists read from a semicolon-separated CSV export.

use vstd::prelude::*;
use crate::order::{chars_lt, lemma_lex_lt_total, lemma_lex_lt_transitive, lex_lt, strictly_sorted};
use crate::ghostfolio::SymbolType;
use crate::text::chars_of;

verus! {

/// The characters of each string of a list.
pub open spec fn strings_view(v: Seq<String>) -> Seq<Seq<char>> {
    v.map_values(|s: String| s@)
}

/// The fields of a record that was read, or `None` for one that was not.
pub open spec fn row_view(r: Option<Vec<String>>) -> Option<Seq<Seq<char>>> {
    match r {
        Some(v) => Some(strings_view(v@)),
        None => None,
    }
}

/// The fields of each record.
pub open spec fn rows_view(rows: Seq<Option<Vec<String>>>) -> Seq<Option<Seq<Seq<char>>>> {
    rows.map_values(|r: Option<Vec<String>>| row_view(r))
}

/// The header row of a `;`-separated CSV text, as the `csv` crate reads it;
/// `None` where it reports an error.
pub uninterp spec fn csv_header_row(data: Seq<u8>) -> Option<Seq<Seq<char>>>;

/// The records after the header row of a `;`-separated CSV text, as the
/// `csv` crate reads them; `None` for each record it reports an error on.
pub uninterp spec fn csv_record_rows(data: Seq<u8>) -> Seq<Option<Seq<Seq<char>>>>;

/// `csv::Reader::headers` on a reader built by
/// `ReaderBuilder::new().delimiter(b';').from_reader(data)`. Its result is
/// named by `csv_header_row`, a function of the bytes alone; nothing
/// further about CSV parsing is stated.
#[verifier::external_body]
pub(crate) fn read_csv_headers(data: &[u8]) -> (r: Option<Vec<String>>)
    ensures
        row_view(r) == csv_header_row(data@),
{
    let mut reader = csv::ReaderBuilder::new().delimiter(b';').from_reader(data);
    match reader.headers() {
        Ok(h) => Some(h.iter().map(String::from).collect()),
        Err(_) => None,
    }
}

/// `csv::Reader::records` on a reader built as in `read_csv_headers`, each
/// record converted to its fields and each error to `None`. Its result is
/// named by `csv_record_rows`, a function of the bytes alone.
#[verifier::external_body]
pub(crate) fn read_csv_records(data: &[u8]) -> (r: Vec<Option<Vec<String>>>)
    ensures
        rows_view(r@) == csv_record_rows(data@),
{
    let mut reader = csv::ReaderBuilder::new().delimiter(b';').from_reader(data);
    reader.records().map(|rec| rec.ok().map(|rec| rec.iter().map(String::from).collect())).collect()
}

/// The position of the first header equal to `column`, or -1.
pub open spec fn header_index(headers: Seq<Seq<char>>, column: Seq<char>) -> int
    decreases headers.len(),
{
    if headers.len() == 0 {
        -1
    } else if headers[0] == column {
        0
    } else {
        let k = header_index(headers.drop_first(), column);
        if k < 0 {
            -1
        } else {
            k + 1
        }
    }
}

proof fn lemma_header_index(headers: Seq<Seq<char>>, column: Seq<char>, j: int)
    requires
        0 <= j <= headers.len(),
        forall|k: int| 0 <= k < j ==> headers[k] != column,
        j < headers.len() ==> headers[j] == column,
    ensures
        header_index(headers, column) == if j < headers.len() {
            j
        } else {
            -1
        },
    decreases j,
{
    if j > 0 {
        lemma_header_index(headers.drop_first(), column, j - 1);
    }
}

/// Whether every record that was read has a field at `idx`.
pub open spec fn rows_reach(rows: Seq<Option<Seq<Seq<char>>>>, idx: int) -> bool {
    forall|i: int| 0 <= i < rows.len() ==> (#[trigger] rows[i] matches Some(row) ==> 0 <= idx < row.len())
}

/// The field at `idx` of each record that was read, in order, except those
/// that are `-`.
pub open spec fn column_values(rows: Seq<Option<Seq<Seq<char>>>>, idx: int) -> Seq<Seq<char>>
    decreases rows.len(),
{
    if rows.len() == 0 {
        Seq::empty()
    } else {
        let rest = column_values(rows.drop_last(), idx);
        match rows.last() {
            Some(row) => if row[idx] == "-"@ {
                rest
            } else {
                rest.push(row[idx])
            },
            None => rest,
        }
    }
}

/// The tickers of a table: the values of the first column named `column`.
pub open spec fn table_tickers(
    headers: Seq<Seq<char>>,
    rows: Seq<Option<Seq<Seq<char>>>>,
    column: Seq<char>,
) -> Seq<Seq<char>> {
    column_values(rows, header_index(headers, column))
}

/// Whether `list` holds exactly the strings of `values`, each once, in
/// ascending order.
pub open spec fn is_sorted_set_of(list: Seq<Seq<char>>, values: Seq<Seq<char>>) -> bool {
    &&& strictly_sorted(list)
    &&& forall|x: Seq<char>| list.contains(x) <==> values.contains(x)
}

/// The characters of each vector of a list.
pub open spec fn keys_view(v: Seq<Vec<char>>) -> Seq<Seq<char>> {
    v.map_values(|k: Vec<char>| k@)
}

/// The field at `column_index` of a record.
pub fn extract_column_from_csn(column_index: usize, row: &Vec<String>) -> (r: String)
    requires
        column_index < row@.len(),
    ensures
        r@ == row@[column_index as int]@,
{
    row[column_index].clone()
}

/// The position of the first header equal to `column`.
pub(crate) fn find_column(headers: &Vec<String>, column: &String) -> (r: Option<usize>)
    ensures
        match r {
            Some(i) => i == header_index(strings_view(headers@), column@),
            None => header_index(strings_view(headers@), column@) < 0,
        },
{
    let ghost hv = strings_view(headers@);
    let mut j: usize = 0;
    while j < headers.len()
        invariant
            j <= headers@.len(),
            hv == strings_view(headers@),
            forall|k: int| 0 <= k < j ==> hv[k] != column@,
        decreases headers.len() - j,
    {
        if headers[j] == *column {
            proof {
                lemma_header_index(hv, column@, j as int);
            }
            return Some(j);
        }
        j = j + 1;
    }
    proof {
        lemma_header_index(hv, column@, j as int);
    }
    None
}

/// Adds `value` to an ascending list of distinct strings, unless it is in it.
fn insert_sorted(result: &mut Vec<String>, keys: &mut Vec<Vec<char>>, value: String)
    requires
        strings_view(old(result)@) == keys_view(old(keys)@),
        strictly_sorted(keys_view(old(keys)@)),
    ensures
        strings_view(final(result)@) == keys_view(final(keys)@),
        strictly_sorted(keys_view(final(keys)@)),
        forall|x: Seq<char>|
            keys_view(final(keys)@).contains(x) <==> (keys_view(old(keys)@).contains(x) || x == value@),
{
    let ghost v = keys_view(keys@);
    let key = chars_of(value.as_str());
    let mut j: usize = 0;
    while j < keys.len()
        invariant
            j <= keys@.len(),
            v == keys_view(keys@),
            forall|k: int| 0 <= k < j ==> lex_lt(#[trigger] v[k], key@),
        ensures
            j <= keys@.len(),
            forall|k: int| 0 <= k < j ==> lex_lt(#[trigger] v[k], key@),
            j < keys@.len() ==> !lex_lt(v[j as int], key@),
        decreases keys.len() - j,
    {
        if !chars_lt(&keys[j], &key) {
            break;
        }
        j = j + 1;
    }
    if j < keys.len() && !chars_lt(&key, &keys[j]) {
        proof {
            if v[j as int] != key@ {
                lemma_lex_lt_total(v[j as int], key@);
            }
            assert(v.contains(v[j as int]));
        }
        return;
    }
    proof {
        if j < v.len() {
            if v[j as int] == key@ {
                assert(false);
            }
            lemma_lex_lt_total(v[j as int], key@);
        }
    }
    result.insert(j, value);
    keys.insert(j, key);
    proof {
        let nv = v.insert(j as int, key@);
        assert(keys_view(keys@) =~= nv);
        assert(strings_view(result@) =~= nv);
        assert forall|a: int, b: int| 0 <= a < b < nv.len() implies lex_lt(#[trigger] nv[a], #[trigger] nv[b]) by {
            if b < j {
                assert(lex_lt(v[a], v[b]));
            } else if b == j {
                assert(lex_lt(v[a], key@));
            } else if a == j {
                if b - 1 > j {
                    assert(lex_lt(v[j as int], v[b - 1]));
                    lemma_lex_lt_transitive(key@, v[j as int], v[b - 1]);
                }
            } else if a < j {
                assert(lex_lt(v[a], v[b - 1]));
            } else {
                assert(lex_lt(v[a - 1], v[b - 1]));
            }
        }
        assert forall|x: Seq<char>| nv.contains(x) <==> (v.contains(x) || x == value@) by {
            if nv.contains(x) {
                let k = choose|k: int| 0 <= k < nv.len() && nv[k] == x;
                if k < j {
                    assert(v[k] == x);
                } else if k > j {
                    assert(v[k - 1] == x);
                }
            }
            if v.contains(x) {
                let k = choose|k: int| 0 <= k < v.len() && v[k] == x;
                if k < j {
                    assert(nv[k] == x);
                } else {
                    assert(nv[k + 1] == x);
                }
            }
            if x == value@ {
                assert(nv[j as int] == x);
            }
        }
    }
}

/// The tickers of a table whose first column named `isin_column` exists and
/// whose records that were read all reach it: the distinct values of that
/// column in ascending order, records that were not read and `-` left out.
pub fn get_tickers_from_table(
    headers: &Vec<String>,
    rows: &Vec<Option<Vec<String>>>,
    isin_column: &String,
) -> (r: Vec<String>)
    requires
        header_index(strings_view(headers@), isin_column@) >= 0,
        rows_reach(rows_view(rows@), header_index(strings_view(headers@), isin_column@)),
    ensures
        is_sorted_set_of(
            strings_view(r@),
            table_tickers(strings_view(headers@), rows_view(rows@), isin_column@),
        ),
        forall|i: int|
            0 <= i < rows@.len() && #[trigger] rows@[i] is Some
                && rows@[i]->Some_0@[header_index(strings_view(headers@), isin_column@)]@ != "-"@
                ==> strings_view(r@).contains(
                rows@[i]->Some_0@[header_index(strings_view(headers@), isin_column@)]@,
            ),
{
    let idx = match find_column(headers, isin_column) {
        Some(i) => i,
        None => return Vec::new(),
    };
    let ghost rv = rows_view(rows@);
    let dash = String::from_str("-");
    let mut result: Vec<String> = Vec::new();
    let mut keys: Vec<Vec<char>> = Vec::new();
    let mut i: usize = 0;
    proof {
        assert(strings_view(result@) =~= keys_view(keys@));
    }
    while i < rows.len()
        invariant
            i <= rows@.len(),
            rv == rows_view(rows@),
            idx == header_index(strings_view(headers@), isin_column@),
            rows_reach(rv, idx as int),
            dash@ == "-"@,
            strings_view(result@) == keys_view(keys@),
            strictly_sorted(keys_view(keys@)),
            forall|x: Seq<char>|
                keys_view(keys@).contains(x) <==> column_values(rv.take(i as int), idx as int).contains(x),
        decreases rows.len() - i,
    {
        let ghost before = keys_view(keys@);
        proof {
            assert(rv.take(i + 1).drop_last() =~= rv.take(i as int));
            assert(rv[i as int] == row_view(rows@[i as int]));
        }
        match &rows[i] {
            Some(row) => {
                proof {
                    assert(rv[i as int] matches Some(rw) && idx < rw.len());
                }
                let value = extract_column_from_csn(idx, row);
                let ghost vv = value@;
                proof {
                    assert(rv[i as int] == Some(strings_view(row@)));
                    assert(strings_view(row@)[idx as int] == vv);
                }
                if !(value == dash) {
                    insert_sorted(&mut result, &mut keys, value);
                    proof {
                        let prev = column_values(rv.take(i as int), idx as int);
                        assert(column_values(rv.take(i + 1), idx as int) == prev.push(vv));
                        assert forall|x: Seq<char>| prev.push(vv).contains(x) <==> (prev.contains(x) || x == vv) by {
                            if prev.push(vv).contains(x) {
                                let k = choose|k: int| 0 <= k < prev.push(vv).len() && prev.push(vv)[k] == x;
                                if k < prev.len() {
                                    assert(prev[k] == x);
                                }
                            }
                            if prev.contains(x) {
                                let k = choose|k: int| 0 <= k < prev.len() && prev[k] == x;
                                assert(prev.push(vv)[k] == x);
                            }
                            if x == vv {
                                assert(prev.push(vv)[prev.len() as int] == x);
                            }
                        }
                    }
                } else {
                    proof {
                        assert(column_values(rv.take(i + 1), idx as int) == column_values(rv.take(i as int), idx as int));
                    }
                }
            },
            None => {
                proof {
                    assert(column_values(rv.take(i + 1), idx as int) == column_values(rv.take(i as int), idx as int));
                }
            },
        }
        i = i + 1;
    }
    proof {
        assert(rv.take(rows@.len() as int) =~= rv);
        lemma_ticker_list_is_the_column(
            strings_view(result@),
            strings_view(headers@),
            rv,
            isin_column@,
        );
        assert forall|i: int|
            0 <= i < rows@.len() && #[trigger] rows@[i] is Some
                && rows@[i]->Some_0@[idx as int]@ != "-"@
                implies strings_view(result@).contains(rows@[i]->Some_0@[idx as int]@) by {
            assert(rv[i] == row_view(rows@[i]));
            assert(rv[i] is Some);
            assert(rv[i]->Some_0[idx as int] == rows@[i]->Some_0@[idx as int]@);
        }
    }
    result
}

/// The tickers of a `;`-separated CSV export, read from its column named
/// `isin_column`: the distinct values in ascending order, records that
/// cannot be read and `-` left out. `None` when the header row cannot be
/// read, no column has that name, or a record that was read is too short.
pub fn get_tickers_from_csv(data: &[u8], isin_column: &String) -> (r: Option<Vec<String>>)
    ensures
        r is Some <==> (csv_header_row(data@) matches Some(h) && header_index(h, isin_column@) >= 0
            && rows_reach(csv_record_rows(data@), header_index(h, isin_column@))),
        r matches Some(t) ==> (csv_header_row(data@) matches Some(h) && is_sorted_set_of(
            strings_view(t@),
            table_tickers(h, csv_record_rows(data@), isin_column@),
        )),
{
    let headers = match read_csv_headers(data) {
        Some(h) => h,
        None => return None,
    };
    let idx = match find_column(&headers, isin_column) {
        Some(i) => i,
        None => return None,
    };
    let rows = read_csv_records(data);
    let ghost rv = rows_view(rows@);
    let mut i: usize = 0;
    while i < rows.len()
        invariant
            i <= rows@.len(),
            rv == rows_view(rows@),
            rv == csv_record_rows(data@),
            csv_header_row(data@) == Some(strings_view(headers@)),
            idx == header_index(strings_view(headers@), isin_column@),
            forall|k: int| 0 <= k < i ==> (#[trigger] rv[k] matches Some(row) ==> 0 <= idx < row.len()),
        decreases rows.len() - i,
    {
        proof {
            assert(rv[i as int] == row_view(rows@[i as int]));
        }
        match &rows[i] {
            Some(row) => {
                if row.len() <= idx {
                    proof {
                        assert(rv[i as int] == Some(strings_view(row@)));
                        assert(strings_view(row@).len() == row@.len());
                        assert(!(rv[i as int] matches Some(rw) ==> 0 <= idx < rw.len()));
                        assert(!rows_reach(rv, idx as int));
                        assert(csv_header_row(data@) == Some(strings_view(headers@)));
                    }
                    return None;
                }
            },
            None => {},
        }
        i = i + 1;
    }
    Some(get_tickers_from_table(&headers, &rows, isin_column))
}

/// The tickers that are not among `known`, in order.
pub open spec fn tickers_not_in(tickers: Seq<Seq<char>>, known: Seq<Seq<char>>) -> Seq<Seq<char>>
    decreases tickers.len(),
{
    if tickers.len() == 0 {
        Seq::empty()
    } else {
        let rest = tickers_not_in(tickers.drop_last(), known);
        if known.contains(tickers.last()) {
            rest
        } else {
            rest.push(tickers.last())
        }
    }
}

/// The first `n` items of `s`, or all of them when there are fewer.
pub open spec fn first_at_most(s: Seq<Seq<char>>, n: int) -> Seq<Seq<char>> {
    if s.len() <= n {
        s
    } else {
        s.take(n)
    }
}

/// How many tickers are looked up on Avanza at a time.
pub const SEARCH_BATCH: usize = 10;

/// Whether `list` holds a string equal to `x`.
pub fn contains_string(list: &Vec<String>, x: &String) -> (r: bool)
    ensures
        r == strings_view(list@).contains(x@),
{
    let ghost lv = strings_view(list@);
    let mut i: usize = 0;
    while i < list.len()
        invariant
            i <= list@.len(),
            lv == strings_view(list@),
            forall|k: int| 0 <= k < i ==> lv[k] != x@,
        decreases list.len() - i,
    {
        if list[i] == *x {
            proof {
                assert(lv[i as int] == x@);
            }
            return true;
        }
        i = i + 1;
    }
    false
}

/// The tickers to look up next: the first ten of those not already in the
/// database, in their order.
pub fn select_tickers_to_search(tickers: &Vec<String>, isin_in_db: &Vec<String>) -> (r: Vec<String>)
    ensures
        strings_view(r@) == first_at_most(
            tickers_not_in(strings_view(tickers@), strings_view(isin_in_db@)),
            SEARCH_BATCH as int,
        ),
        ({
            let unknown = strings_view(tickers@).filter(|x: Seq<char>| !strings_view(isin_in_db@).contains(x));
            strings_view(r@) == unknown.take(
                if unknown.len() < SEARCH_BATCH { unknown.len() as int } else { SEARCH_BATCH as int },
            )
        }),
{
    let ghost tv = strings_view(tickers@);
    let ghost dv = strings_view(isin_in_db@);
    let mut res: Vec<String> = Vec::new();
    let mut i: usize = 0;
    proof {
        assert(tv.take(0) =~= Seq::<Seq<char>>::empty());
        assert(strings_view(res@) =~= Seq::<Seq<char>>::empty());
    }
    while i < tickers.len()
        invariant
            i <= tickers@.len(),
            tv == strings_view(tickers@),
            dv == strings_view(isin_in_db@),
            res@.len() <= SEARCH_BATCH,
            strings_view(res@) == first_at_most(tickers_not_in(tv.take(i as int), dv), SEARCH_BATCH as int),
        decreases tickers.len() - i,
    {
        let ghost prev = tickers_not_in(tv.take(i as int), dv);
        proof {
            assert(tv.take(i + 1).drop_last() =~= tv.take(i as int));
            assert(tv.take(i + 1).last() == tickers@[i as int]@);
        }
        let known = contains_string(isin_in_db, &tickers[i]);
        if res.len() < SEARCH_BATCH {
            proof {
                if prev.len() > SEARCH_BATCH {
                    assert(prev.take(SEARCH_BATCH as int).len() == SEARCH_BATCH);
                }
                assert(strings_view(res@) == prev);
            }
            if !known {
                res.push(tickers[i].clone());
                proof {
                    assert(strings_view(res@) =~= prev.push(tickers@[i as int]@));
                }
            }
        } else {
            proof {
                let next = tickers_not_in(tv.take(i + 1), dv);
                assert(next == prev || next == prev.push(tickers@[i as int]@));
                assert(next.take(SEARCH_BATCH as int) =~= prev.take(SEARCH_BATCH as int));
            }
        }
        i = i + 1;
    }
    proof {
        assert(tv.take(tickers@.len() as int) =~= tv);
        lemma_selection_is_first_unknown(tv, dv);
    }
    res
}

/// The position of the first `c` in `s`, or the length of `s`.
pub open spec fn find_char(s: Seq<char>, c: char) -> int
    decreases s.len(),
{
    if s.len() == 0 || s[0] == c {
        0
    } else {
        1 + find_char(s.drop_first(), c)
    }
}

proof fn lemma_find_char(s: Seq<char>, c: char, j: int)
    requires
        0 <= j <= s.len(),
        forall|k: int| 0 <= k < j ==> s[k] != c,
        j < s.len() ==> s[j] == c,
    ensures
        find_char(s, c) == j,
    decreases j,
{
    if j > 0 {
        lemma_find_char(s.drop_first(), c, j - 1);
    }
}

/// The first two `-`-separated pieces of `s`, as `str::split` yields them;
/// `None` when `s` holds no `-`.
pub open spec fn id_symbol_parts(s: Seq<char>) -> Option<(Seq<char>, Seq<char>)> {
    let d = find_char(s, '-');
    if d >= s.len() {
        None
    } else {
        let rest = s.skip(d + 1);
        Some((s.take(d), rest.take(find_char(rest, '-'))))
    }
}

/// An order book id and kind of instrument read from `id-KIND`.
pub open spec fn id_symbol(s: Seq<char>) -> Option<(Seq<char>, SymbolType)> {
    match id_symbol_parts(s) {
        Some((id, kind)) => match SymbolType::from_label(kind) {
            Some(t) => Some((id, t)),
            None => None,
        },
        None => None,
    }
}

/// Reads a selection of the form `id-STOCK` or `id-FUND`: the text before
/// the first `-` and the kind named between it and the next `-`. `None`
/// when there is no `-` or the kind is neither.
pub fn parse_id_symbol(s: &String) -> (r: Option<(String, SymbolType)>)
    ensures
        match r {
            Some((id, t)) => id_symbol(s@) == Some((id@, t)),
            None => id_symbol(s@) is None,
        },
{
    let cs = chars_of(s.as_str());
    let n = cs.len();
    let mut d: usize = 0;
    while d < n && cs[d] != '-'
        invariant
            n == s@.len(),
            cs@ == s@,
            d <= n,
            forall|k: int| 0 <= k < d ==> s@[k] != '-',
        decreases n - d,
    {
        d = d + 1;
    }
    proof {
        lemma_find_char(s@, '-', d as int);
    }
    if d == n {
        return None;
    }
    let mut e: usize = d + 1;
    while e < n && cs[e] != '-'
        invariant
            n == s@.len(),
            cs@ == s@,
            d < e <= n,
            forall|k: int| d < k < e ==> s@[k] != '-',
        decreases n - e,
    {
        e = e + 1;
    }
    proof {
        let rest = s@.skip(d + 1);
        lemma_find_char(rest, '-', e - (d + 1));
    }
    let id = s.as_str().substring_char(0, d);
    let kind = s.as_str().substring_char(d + 1, e);
    proof {
        assert(kind@ =~= s@.skip(d + 1).take(e - (d + 1)));
        assert(id@ =~= s@.take(d as int));
    }
    match SymbolType::parse(kind) {
        Some(t) => Some((String::from_str(id), t)),
        None => None,
    }
}

/// The tickers chosen for a search are at most ten, all from the list and
/// none already known.
pub proof fn lemma_selected_tickers_are_new(tickers: Seq<Seq<char>>, known: Seq<Seq<char>>)
    ensures
        first_at_most(tickers_not_in(tickers, known), SEARCH_BATCH as int).len() <= SEARCH_BATCH,
        forall|x: Seq<char>|
            #[trigger] first_at_most(tickers_not_in(tickers, known), SEARCH_BATCH as int).contains(x)
                ==> tickers.contains(x) && !known.contains(x),
{
    lemma_tickers_not_in(tickers, known);
    let f = tickers_not_in(tickers, known);
    assert forall|x: Seq<char>| #[trigger] first_at_most(f, SEARCH_BATCH as int).contains(x) implies tickers.contains(x)
        && !known.contains(x) by {
        let g = first_at_most(f, SEARCH_BATCH as int);
        let k = choose|k: int| 0 <= k < g.len() && g[k] == x;
        assert(f[k] == x);
        assert(f.contains(x));
    }
}

proof fn lemma_tickers_not_in(tickers: Seq<Seq<char>>, known: Seq<Seq<char>>)
    ensures
        forall|x: Seq<char>|
            #[trigger] tickers_not_in(tickers, known).contains(x) ==> tickers.contains(x) && !known.contains(x),
    decreases tickers.len(),
{
    if tickers.len() > 0 {
        let rest = tickers.drop_last();
        lemma_tickers_not_in(rest, known);
        assert forall|x: Seq<char>| #[trigger] tickers_not_in(tickers, known).contains(x) implies tickers.contains(x)
            && !known.contains(x) by {
            let f = tickers_not_in(tickers, known);
            let r = tickers_not_in(rest, known);
            let k = choose|k: int| 0 <= k < f.len() && f[k] == x;
            if k < r.len() {
                assert(r[k] == x);
                assert(r.contains(x));
                let m = choose|m: int| 0 <= m < rest.len() && rest[m] == x;
                assert(tickers[m] == x);
            } else {
                assert(x == tickers.last());
                assert(tickers[tickers.len() - 1] == x);
            }
        }
    }
}

/// A selection written as an id without `-`, a `-` and the name of a kind
/// reads back as that id and kind.
pub proof fn lemma_id_symbol_roundtrip(id: Seq<char>, t: SymbolType)
    requires
        !id.contains('-'),
    ensures
        id_symbol(id + seq!['-'] + t.label()) == Some((id, t)),
{
    reveal_strlit("STOCK");
    reveal_strlit("FUND");
    crate::ghostfolio::lemma_symbol_type_label_roundtrip(t);
    let s = id + seq!['-'] + t.label();
    assert forall|k: int| 0 <= k < id.len() implies s[k] != '-' by {
        assert(s[k] == id[k]);
    }
    lemma_find_char(s, '-', id.len() as int);
    let rest = s.skip(id.len() as int + 1);
    assert(rest =~= t.label());
    assert(!t.label().contains('-'));
    assert forall|k: int| 0 <= k < rest.len() implies rest[k] != '-' by {
        if rest[k] == '-' {
            assert(t.label()[k] == '-');
            assert(t.label().contains('-'));
        }
    }
    lemma_find_char(rest, '-', rest.len() as int);
    assert(s.take(id.len() as int) =~= id);
    assert(rest.take(rest.len() as int) =~= rest);
}

/// `header_index` finds the first header equal to the name: its position
/// when the name occurs, and -1 when it does not.
pub proof fn lemma_header_index_is_first_match(headers: Seq<Seq<char>>, column: Seq<char>)
    ensures
        -1 <= header_index(headers, column) < headers.len(),
        header_index(headers, column) >= 0 ==> headers[header_index(headers, column)] == column,
        forall|k: int| 0 <= k < header_index(headers, column) ==> headers[k] != column,
        header_index(headers, column) < 0 ==> !headers.contains(column),
    decreases headers.len(),
{
    if headers.len() > 0 && headers[0] != column {
        let tail = headers.drop_first();
        lemma_header_index_is_first_match(tail, column);
        let k = header_index(tail, column);
        if k >= 0 {
            assert forall|j: int| 0 <= j < k + 1 implies headers[j] != column by {
                if j > 0 {
                    assert(headers[j] == tail[j - 1]);
                }
            }
        } else {
            if headers.contains(column) {
                let j = choose|j: int| 0 <= j < headers.len() && headers[j] == column;
                assert(tail[j - 1] == column);
                assert(tail.contains(column));
            }
        }
    }
}

/// The column values of a table are exactly the values, other than `-`, at
/// `idx` of the records that were read, whatever the number of records.
pub proof fn lemma_column_values_are_the_column(rows: Seq<Option<Seq<Seq<char>>>>, idx: int)
    ensures
        forall|i: int|
            0 <= i < rows.len() && #[trigger] rows[i] is Some && rows[i]->Some_0[idx] != "-"@
                ==> column_values(rows, idx).contains(rows[i]->Some_0[idx]),
        forall|x: Seq<char>|
            #[trigger] column_values(rows, idx).contains(x) ==> x != "-"@ && exists|i: int|
                0 <= i < rows.len() && #[trigger] rows[i] is Some && rows[i]->Some_0[idx] == x,
    decreases rows.len(),
{
    if rows.len() > 0 {
        let init = rows.drop_last();
        lemma_column_values_are_the_column(init, idx);
        let cv = column_values(rows, idx);
        let rest = column_values(init, idx);
        assert forall|i: int|
            0 <= i < rows.len() && #[trigger] rows[i] is Some && rows[i]->Some_0[idx] != "-"@
                implies cv.contains(rows[i]->Some_0[idx]) by {
            let v = rows[i]->Some_0[idx];
            if i < init.len() {
                assert(init[i] == rows[i]);
                assert(rest.contains(v));
                let k = choose|k: int| 0 <= k < rest.len() && rest[k] == v;
                assert(cv[k] == v);
            } else {
                assert(cv[cv.len() - 1] == v);
            }
        }
        assert forall|x: Seq<char>| #[trigger] cv.contains(x) implies x != "-"@ && exists|i: int|
            0 <= i < rows.len() && #[trigger] rows[i] is Some && rows[i]->Some_0[idx] == x by {
            let k = choose|k: int| 0 <= k < cv.len() && cv[k] == x;
            if k < rest.len() {
                assert(rest[k] == x);
                assert(rest.contains(x));
                let i = choose|i: int| 0 <= i < init.len() && #[trigger] init[i] is Some && init[i]->Some_0[idx] == x;
                assert(rows[i] == init[i]);
            } else {
                assert(rows[rows.len() - 1] is Some);
            }
        }
    }
}

/// The tickers of a table are exactly the values, other than `-`, of the
/// first column with the given name in the records that were read.
pub proof fn lemma_table_tickers_are_the_column(
    headers: Seq<Seq<char>>,
    rows: Seq<Option<Seq<Seq<char>>>>,
    column: Seq<char>,
)
    ensures
        forall|i: int|
            0 <= i < rows.len() && #[trigger] rows[i] is Some
                && rows[i]->Some_0[header_index(headers, column)] != "-"@
                ==> table_tickers(headers, rows, column).contains(
                rows[i]->Some_0[header_index(headers, column)],
            ),
        forall|x: Seq<char>|
            #[trigger] table_tickers(headers, rows, column).contains(x) ==> x != "-"@ && exists|i: int|
                0 <= i < rows.len() && #[trigger] rows[i] is Some
                    && rows[i]->Some_0[header_index(headers, column)] == x,
{
    lemma_column_values_are_the_column(rows, header_index(headers, column));
}

/// A ticker list holds every value, other than `-`, of the chosen column in
/// every record that was read, and nothing else, in ascending order.
pub proof fn lemma_ticker_list_is_the_column(
    list: Seq<Seq<char>>,
    headers: Seq<Seq<char>>,
    rows: Seq<Option<Seq<Seq<char>>>>,
    column: Seq<char>,
)
    requires
        is_sorted_set_of(list, table_tickers(headers, rows, column)),
    ensures
        strictly_sorted(list),
        forall|i: int|
            0 <= i < rows.len() && #[trigger] rows[i] is Some
                && rows[i]->Some_0[header_index(headers, column)] != "-"@
                ==> list.contains(rows[i]->Some_0[header_index(headers, column)]),
        forall|x: Seq<char>|
            #[trigger] list.contains(x) ==> x != "-"@ && exists|i: int|
                0 <= i < rows.len() && #[trigger] rows[i] is Some
                    && rows[i]->Some_0[header_index(headers, column)] == x,
{
    lemma_table_tickers_are_the_column(headers, rows, column);
    assert forall|x: Seq<char>| #[trigger] list.contains(x) implies x != "-"@ && exists|i: int|
        0 <= i < rows.len() && #[trigger] rows[i] is Some
            && rows[i]->Some_0[header_index(headers, column)] == x by {
        assert(table_tickers(headers, rows, column).contains(x));
    }
}

proof fn lemma_tickers_not_in_is_filter(tickers: Seq<Seq<char>>, known: Seq<Seq<char>>)
    ensures
        tickers_not_in(tickers, known) == tickers.filter(|x: Seq<char>| !known.contains(x)),
    decreases tickers.len(),
{
    reveal(Seq::filter);
    if tickers.len() > 0 {
        lemma_tickers_not_in_is_filter(tickers.drop_last(), known);
    }
}

/// The tickers chosen for a search are the first ten, in order, of the
/// tickers of the list that are not known, or all of them when there are
/// fewer than ten; how long the list is makes no difference.
pub proof fn lemma_selection_is_first_unknown(tickers: Seq<Seq<char>>, known: Seq<Seq<char>>)
    ensures
        ({
            let unknown = tickers.filter(|x: Seq<char>| !known.contains(x));
            first_at_most(tickers_not_in(tickers, known), SEARCH_BATCH as int) == unknown.take(
                if unknown.len() < SEARCH_BATCH { unknown.len() as int } else { SEARCH_BATCH as int },
            )
        }),
{
    lemma_tickers_not_in_is_filter(tickers, known);
    let unknown = tickers.filter(|x: Seq<char>| !known.contains(x));
    if unknown.len() < SEARCH_BATCH {
        assert(unknown.take(unknown.len() as int) =~= unknown);
    }
}

/// `find_char` is the position of the first occurrence of the character,
/// or the length when it does not occur.
pub proof fn lemma_find_char_is_first(s: Seq<char>, c: char)
    ensures
        0 <= find_char(s, c) <= s.len(),
        find_char(s, c) < s.len() ==> s[find_char(s, c)] == c,
        forall|k: int| 0 <= k < find_char(s, c) ==> s[k] != c,
    decreases s.len(),
{
    if s.len() > 0 && s[0] != c {
        let t = s.drop_first();
        lemma_find_char_is_first(t, c);
        assert forall|k: int| 0 <= k < find_char(s, c) implies s[k] != c by {
            if k > 0 {
                assert(s[k] == t[k - 1]);
            }
        }
    }
}

} // verus!
