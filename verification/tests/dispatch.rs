use std::sync::mpsc;

use stock_stream::book::QuoteBook;
use stock_stream::dispatch::{deliver, handle_message, subscription_lines, DispatchMessage, Subscription};
use stock_stream::quote::{wire_price_field, StockQuote};

fn from_wire_line(line: &str) -> StockQuote {
    let reading = match wire_price_field(line) {
        Some(p) => match p.parse::<f64>() {
            Ok(x) if !(x < 0.0) => Some(format!("{}", x)),
            _ => None,
        },
        None => None,
    };
    StockQuote::from_wire_line(line, reading.as_deref()).unwrap()
}

fn book(quotes: Vec<StockQuote>) -> QuoteBook {
    QuoteBook::from_quotes(quotes)
}

fn quote(ticker: &'static str) -> StockQuote {
    StockQuote { ticker, ..Default::default() }
}

#[test]
fn it_works() {
    let (stock_sender, stock_receiver) = mpsc::channel::<Vec<u8>>();
    let mut subscriptions: Vec<Subscription> = Vec::new();

    handle_message(
        &mut subscriptions,
        DispatchMessage::Subscribe(Subscription { tickers: vec!["AAPL"], sender: stock_sender }),
    );
    handle_message(&mut subscriptions, DispatchMessage::Quotes(book(vec![quote("AAPL"), quote("MSFT")])));

    let receive_bytes = stock_receiver.recv().unwrap();
    let receive_string = String::from_utf8(receive_bytes).unwrap();

    let receive = from_wire_line(&receive_string);

    assert_eq!(receive.ticker, "AAPL");
}

#[test]
fn subscriber_gets_its_tickers_in_its_order() {
    let quotes = book(vec![quote("AAPL"), quote("MSFT"), quote("TSLA")]);
    let lines = subscription_lines(&vec!["TSLA", "GOOGL", "AAPL"], &quotes);
    assert_eq!(lines, vec!["TSLA|0|0|0".to_string(), "AAPL|0|0|0".to_string()]);
}

#[test]
fn quotes_with_a_ticker_outside_the_table_are_not_filed() {
    let quotes = book(vec![quote("ZZZZ")]);
    let lines = subscription_lines(&vec!["ZZZZ"], &quotes);
    assert!(lines.is_empty());
}

#[test]
fn a_later_quote_of_a_ticker_replaces_an_earlier_one() {
    let mut first = quote("AAPL");
    first.volume = 1;
    let mut second = quote("AAPL");
    second.volume = 2;
    let quotes = book(vec![first, second]);
    assert_eq!(quotes.get("AAPL").unwrap().volume, 2);
    assert!(quotes.get("MSFT").is_none());
    assert_eq!(subscription_lines(&vec!["AAPL"], &quotes), vec!["AAPL|0|2|0".to_string()]);
}

#[test]
fn it_works_sends_exactly_the_subscribed_line() {
    let (stock_sender, stock_receiver) = mpsc::channel::<Vec<u8>>();
    let mut subscriptions: Vec<Subscription> = Vec::new();
    handle_message(
        &mut subscriptions,
        DispatchMessage::Subscribe(Subscription { tickers: vec!["AAPL"], sender: stock_sender }),
    );
    handle_message(&mut subscriptions, DispatchMessage::Quotes(book(vec![quote("AAPL"), quote("MSFT")])));
    assert_eq!(stock_receiver.recv().unwrap(), b"AAPL|0|0|0".to_vec());
    assert!(stock_receiver.try_recv().is_err());
}

#[test]
fn subscription_whose_receiver_is_gone_is_dropped() {
    let (gone_sender, gone_receiver) = mpsc::channel::<Vec<u8>>();
    drop(gone_receiver);
    let (live_sender, live_receiver) = mpsc::channel::<Vec<u8>>();
    let (idle_sender, idle_receiver) = mpsc::channel::<Vec<u8>>();
    drop(idle_receiver);

    let mut subscriptions: Vec<Subscription> = Vec::new();
    handle_message(
        &mut subscriptions,
        DispatchMessage::Subscribe(Subscription { tickers: vec!["AAPL"], sender: gone_sender }),
    );
    handle_message(
        &mut subscriptions,
        DispatchMessage::Subscribe(Subscription { tickers: vec!["MSFT"], sender: live_sender }),
    );
    // Nothing will be sent to this one, so it stays although nobody listens.
    handle_message(
        &mut subscriptions,
        DispatchMessage::Subscribe(Subscription { tickers: vec!["GOOGL"], sender: idle_sender }),
    );
    assert_eq!(subscriptions.len(), 3);

    handle_message(&mut subscriptions, DispatchMessage::Quotes(book(vec![quote("AAPL"), quote("MSFT")])));

    assert_eq!(subscriptions.len(), 2);
    assert_eq!(subscriptions[0].tickers, vec!["MSFT"]);
    assert_eq!(subscriptions[1].tickers, vec!["GOOGL"]);
    assert_eq!(String::from_utf8(live_receiver.recv().unwrap()).unwrap(), "MSFT|0|0|0");
}

#[test]
fn deliver_stops_at_the_first_refusal() {
    let (sender, receiver) = mpsc::channel::<Vec<u8>>();
    drop(receiver);
    let mut sub = Subscription { tickers: vec!["AAPL", "MSFT"], sender };
    assert!(!deliver(&mut sub, &book(vec![quote("AAPL"), quote("MSFT")])));
    assert!(deliver(&mut sub, &book(vec![quote("TSLA")])));
}

#[test]
fn a_subscriber_gets_only_the_batches_after_it_came_in() {
    let (early_sender, early_receiver) = mpsc::channel::<Vec<u8>>();
    let (late_sender, late_receiver) = mpsc::channel::<Vec<u8>>();
    let mut subscriptions: Vec<Subscription> = Vec::new();

    handle_message(
        &mut subscriptions,
        DispatchMessage::Subscribe(Subscription { tickers: vec!["MSFT", "AAPL"], sender: early_sender }),
    );
    let mut first = quote("AAPL");
    first.volume = 1;
    handle_message(&mut subscriptions, DispatchMessage::Quotes(book(vec![first, quote("MSFT")])));
    handle_message(
        &mut subscriptions,
        DispatchMessage::Subscribe(Subscription { tickers: vec!["AAPL"], sender: late_sender }),
    );
    let mut second = quote("AAPL");
    second.volume = 2;
    handle_message(&mut subscriptions, DispatchMessage::Quotes(book(vec![second])));

    let early: Vec<Vec<u8>> = early_receiver.try_iter().collect();
    assert_eq!(
        early,
        vec![b"MSFT|0|0|0".to_vec(), b"AAPL|0|1|0".to_vec(), b"AAPL|0|2|0".to_vec()]
    );
    let late: Vec<Vec<u8>> = late_receiver.try_iter().collect();
    assert_eq!(late, vec![b"AAPL|0|2|0".to_vec()]);
}

#[test]
fn a_dropped_subscription_gets_nothing_from_later_batches() {
    let (gone_sender, gone_receiver) = mpsc::channel::<Vec<u8>>();
    drop(gone_receiver);
    let (live_sender, live_receiver) = mpsc::channel::<Vec<u8>>();
    let mut subscriptions: Vec<Subscription> = Vec::new();
    handle_message(
        &mut subscriptions,
        DispatchMessage::Subscribe(Subscription { tickers: vec!["AAPL"], sender: gone_sender }),
    );
    handle_message(
        &mut subscriptions,
        DispatchMessage::Subscribe(Subscription { tickers: vec!["AAPL"], sender: live_sender }),
    );
    handle_message(&mut subscriptions, DispatchMessage::Quotes(book(vec![quote("AAPL")])));
    assert_eq!(subscriptions.len(), 1);
    handle_message(&mut subscriptions, DispatchMessage::Quotes(book(vec![quote("AAPL")])));
    assert_eq!(subscriptions.len(), 1);
    assert_eq!(live_receiver.try_iter().count(), 2);
}
