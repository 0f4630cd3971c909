use stock_stream::ticker::{lookup_ticker, ticker_at, TICKER_COUNT};

#[test]
fn table_holds_every_ticker_once() {
    let mut names: Vec<&str> = (0..TICKER_COUNT).map(ticker_at).collect();
    assert_eq!(names.len(), 110);
    assert_eq!(names[0], "AAPL");
    assert_eq!(names[TICKER_COUNT - 1], "EW");
    names.sort();
    names.dedup();
    assert_eq!(names.len(), TICKER_COUNT);
}

#[test]
fn every_table_name_is_capital_letters() {
    for i in 0..TICKER_COUNT {
        let t = ticker_at(i);
        assert!(!t.is_empty());
        assert!(t.chars().all(|c| c.is_ascii_uppercase()));
    }
}

#[test]
fn lookup_finds_table_names_and_nothing_else() {
    assert_eq!(lookup_ticker("MSFT"), Some("MSFT"));
    assert_eq!(lookup_ticker("T"), Some("T"));
    assert_eq!(lookup_ticker("msft"), None);
    assert_eq!(lookup_ticker(""), None);
    assert_eq!(lookup_ticker("MSFT "), None);
    for i in 0..TICKER_COUNT {
        let owned = ticker_at(i).to_string();
        assert_eq!(lookup_ticker(&owned), Some(ticker_at(i)));
    }
}
