use avanza_ghostfolio::backend;
use avanza_ghostfolio::ghostfolio::SymbolType;
use avanza_ghostfolio::tickers::{
    contains_string, extract_column_from_csn, get_tickers_from_csv, get_tickers_from_table,
    parse_id_symbol, select_tickers_to_search,
};

fn strings(items: &[&str]) -> Vec<String> {
    items.iter().map(|s| s.to_string()).collect()
}

const EXPORT: &str = "Namn;Kortnamn;ISIN;Antal\nVolvo B;VOLV B;SE0000115446;10\nAvanza Zero;-;SE0001234567;3\nKassa;-;-;0\nVolvo B;VOLV B;SE0000115446;5\nAstra;AZN;GB0009895292;1\n";

#[test]
fn tickers_are_sorted_and_distinct() {
    let tickers = get_tickers_from_csv(EXPORT.as_bytes(), &"ISIN".to_string()).unwrap();
    assert_eq!(tickers, strings(&["GB0009895292", "SE0000115446", "SE0001234567"]));
}

#[test]
fn tickers_of_another_column_skip_dashes() {
    let tickers = get_tickers_from_csv(EXPORT.as_bytes(), &"Kortnamn".to_string()).unwrap();
    assert_eq!(tickers, strings(&["AZN", "VOLV B"]));
}

#[test]
fn missing_column_gives_none() {
    assert_eq!(get_tickers_from_csv(EXPORT.as_bytes(), &"Isin".to_string()), None);
}

#[test]
fn unreadable_header_gives_none() {
    let data: &[u8] = b"Na\xffmn;ISIN\nA;SE1\n";
    assert_eq!(get_tickers_from_csv(data, &"ISIN".to_string()), None);
}

#[test]
fn records_of_the_wrong_length_are_skipped() {
    let data = "Name;ISIN\nA;SE2\nB\nC;SE1;extra\nD;SE3\n";
    assert_eq!(
        get_tickers_from_csv(data.as_bytes(), &"ISIN".to_string()).unwrap(),
        strings(&["SE2", "SE3"])
    );
}

#[test]
fn empty_export_has_no_tickers() {
    assert_eq!(get_tickers_from_csv(b"Name;ISIN\n", &"ISIN".to_string()).unwrap(), Vec::<String>::new());
}

#[test]
fn table_with_the_first_matching_column() {
    let headers = strings(&["ISIN", "X", "ISIN"]);
    let rows = vec![
        Some(strings(&["b", "1", "z"])),
        None,
        Some(strings(&["a", "2", "y"])),
        Some(strings(&["b", "3", "x"])),
        Some(strings(&["-", "4", "w"])),
    ];
    assert_eq!(get_tickers_from_table(&headers, &rows, &"ISIN".to_string()), strings(&["a", "b"]));
}

#[test]
fn ordering_puts_prefixes_first_and_compares_characters() {
    let headers = strings(&["c"]);
    let rows: Vec<Option<Vec<String>>> =
        ["ab", "a", "B", "Ö", "abc", "a"].iter().map(|s| Some(strings(&[s]))).collect();
    assert_eq!(get_tickers_from_table(&headers, &rows, &"c".to_string()), strings(&["B", "a", "ab", "abc", "Ö"]));
}

#[test]
fn column_extraction() {
    let row = strings(&["a", "b", "c"]);
    assert_eq!(extract_column_from_csn(1, &row), "b");
}

#[test]
fn membership() {
    let list = strings(&["a", "b"]);
    assert!(contains_string(&list, &"b".to_string()));
    assert!(!contains_string(&list, &"c".to_string()));
}

#[test]
fn selection_skips_known_and_stops_at_ten() {
    let tickers: Vec<String> = (0..15).map(|i| format!("T{:02}", i)).collect();
    let known = strings(&["T01", "T04", "T20"]);
    let selected = select_tickers_to_search(&tickers, &known);
    assert_eq!(
        selected,
        strings(&["T00", "T02", "T03", "T05", "T06", "T07", "T08", "T09", "T10", "T11"])
    );
}

#[test]
fn selection_of_a_short_list() {
    let tickers = strings(&["A", "B", "C"]);
    assert_eq!(select_tickers_to_search(&tickers, &strings(&["B"])), strings(&["A", "C"]));
    assert_eq!(select_tickers_to_search(&vec![], &vec![]), Vec::<String>::new());
}

#[test]
fn id_symbol_pairs() {
    assert_eq!(
        parse_id_symbol(&"5361-FUND".to_string()),
        Some(("5361".to_string(), SymbolType::MUTUALFUND))
    );
    assert_eq!(parse_id_symbol(&"12-STOCK".to_string()), Some(("12".to_string(), SymbolType::STOCK)));
    assert_eq!(
        parse_id_symbol(&"12-STOCK-extra".to_string()),
        Some(("12".to_string(), SymbolType::STOCK))
    );
    assert_eq!(parse_id_symbol(&"-FUND".to_string()), Some((String::new(), SymbolType::MUTUALFUND)));
}

#[test]
fn id_symbol_rejects() {
    assert_eq!(parse_id_symbol(&"5361".to_string()), None);
    assert_eq!(parse_id_symbol(&"5361-BOND".to_string()), None);
    assert_eq!(parse_id_symbol(&"5361--FUND".to_string()), None);
    assert_eq!(parse_id_symbol(&"".to_string()), None);
}

#[test]
fn id_symbol_roundtrip() {
    for t in [SymbolType::STOCK, SymbolType::MUTUALFUND] {
        let s = format!("{}-{}", "878733", t.display_name());
        assert_eq!(parse_id_symbol(&s), Some(("878733".to_string(), t)));
    }
}

#[test]
fn backend_tickers_keep_order_and_drop_neighbouring_repeats() {
    let data = "Name;ISIN\nA;SE2\nB;SE2\nC;SE1\nD;-\nE;SE1\nF;SE2\n";
    assert_eq!(
        backend::get_tickers_from_csv(data.as_bytes(), &"ISIN".to_string()).unwrap(),
        strings(&["SE2", "SE1", "SE2"])
    );
    assert_eq!(backend::get_tickers_from_csv(data.as_bytes(), &"X".to_string()), None);
}

#[test]
fn backend_tickers_to_search() {
    let tickers = strings(&["a", "b", "c", "d"]);
    assert_eq!(backend::tickers_to_search(&tickers), strings(&["b", "c"]));
}
