use stock_stream::quote::{wire_price_field, ParserError, StockQuote};

/// The reading of the price field of `line`, the one part of a wire line that
/// rests on floating point: the `Display` text of the non-negative `f64` it
/// denotes.
fn price_reading(line: &str) -> Option<String> {
    match wire_price_field(line) {
        Some(p) => match p.parse::<f64>() {
            Ok(price) if !(price < 0.0) => Some(format!("{}", price)),
            _ => None,
        },
        None => None,
    }
}

fn from_wire_line(line: &str) -> Result<StockQuote, ParserError> {
    let reading = price_reading(line);
    StockQuote::from_wire_line(line, reading.as_deref())
}

fn quote(ticker: &'static str, price: &str, volume: u32, timestamp_ms: u128) -> StockQuote {
    StockQuote { ticker, price: price.to_string(), volume, timestamp_ms }
}

#[test]
fn invalid_ticker_can_not_be_serialized() {
    let quote = StockQuote { ticker: "INVALID", ..Default::default() };

    let data = quote.to_wire_line();

    if !matches!(data, Err(ParserError::InvalidTicker)) {
        panic!("При неверном тикере должна вернуться ошибка InvalidTicker");
    }
}

#[test]
fn serialize_and_deserialize() {
    let quote = quote("AAPL", &format!("{}", 150.0f64), 100000, 1779121622);

    let data = quote.to_wire_line().unwrap();

    let deserialized_quote = from_wire_line(&data).unwrap();

    assert_eq!(quote, deserialized_quote, "Результат декодирования должен совпадать с исходным");
}

#[test]
fn wrong_number_of_fields_not_be_deserialized() {
    let datas = vec!["", "AAPL", "AAPL|150", "AAPL|150|100000", "AAPL|150|100000|1779121622|123"];

    for data in datas {
        if !matches!(from_wire_line(data), Err(ParserError::WrongNumberOfFields)) {
            panic!("При неверном числе поле нет должна вернуться ошибка WrongNumberOfFields");
        }
    }
}

#[test]
fn invalid_ticker_can_not_be_deserialized() {
    let datas = vec![
        "|150|100000|1779121622",
        "QSDFD|NotANumber|100000|1779121622",
        "42|NotANumber|100000|1779121622",
    ];

    for data in datas {
        if !matches!(from_wire_line(data), Err(ParserError::InvalidTicker)) {
            panic!("При неверном тикере должна вернуться ошибка InvalidTicker");
        }
    }
}

#[test]
fn wrong_price_can_not_be_deserialized() {
    let datas = vec!["AAPL|-150|100000|1779121622", "AAPL|NotANumber|100000|1779121622"];

    for data in datas {
        if !matches!(from_wire_line(data), Err(ParserError::InvalidPrice)) {
            panic!("При неверной цене должна вернуться ошибка InvalidPrice");
        }
    }
}

#[test]
fn wrong_volume_can_not_be_deserialized() {
    let datas = vec!["AAPL|150|-100000|1779121622", "AAPL|150|NotANumber|1779121622"];

    for data in datas {
        if !matches!(from_wire_line(data), Err(ParserError::InvalidVolume)) {
            panic!("При неверном объеме должна вернуться ошибка InvalidVolume");
        }
    }
}

#[test]
fn wrong_timestamp_can_not_be_deserialized() {
    let datas = vec!["AAPL|150|100000|-1779121622", "AAPL|150|100000|NotANumber"];

    for data in datas {
        if !matches!(from_wire_line(data), Err(ParserError::InvalidTimestamp)) {
            panic!("При неверном времени должна вернуться ошибка InvalidTimestamp");
        }
    }
}

#[test]
fn spaces_in_fields_can_not_be_deserialized() {
    let datas = vec![
        " AAPL|150|100000|1779121622",
        "AAPL |150|100000|1779121622",
        "AAPL| 150|100000|1779121622",
        "AAPL|150 |100000|1779121622",
        "AAPL|150| 100000|1779121622",
        "AAPL|150|100000 |1779121622",
        "AAPL|150|100000| 1779121622",
        "AAPL|150|100000|1779121622 ",
    ];

    for data in datas {
        if !matches!(from_wire_line(data), Err(ParserError::SpaceNotAllowed)) {
            panic!("При наличии пробелов в полях должна вернуться ошибка SpaceNotAllowed");
        }
    }
}

#[test]
fn wire_line_of_the_documented_quote() {
    let q = quote("AAPL", "150", 100000, 1779121622);
    assert_eq!(q.to_wire_line().unwrap(), "AAPL|150|100000|1779121622");
}

#[test]
fn documented_line_reads_back() {
    let q = from_wire_line("AAPL|150|100000|1779121622").unwrap();
    assert_eq!(q, quote("AAPL", "150", 100000, 1779121622));
}

#[test]
fn round_trip_keeps_fractional_price_and_large_numbers() {
    let q = quote("TSLA", "1234.56", u32::MAX, u128::MAX);
    let line = q.to_wire_line().unwrap();
    assert_eq!(
        line,
        "TSLA|1234.56|4294967295|340282366920938463463374607431768211455"
    );
    assert_eq!(wire_price_field(&line), Some("1234.56"));
    assert_eq!(from_wire_line(&line).unwrap(), q);
}

#[test]
fn zero_values_are_written_as_single_digits() {
    let q = quote("V", "0", 0, 0);
    assert_eq!(q.to_wire_line().unwrap(), "V|0|0|0");
}

#[test]
fn price_field_is_found_only_in_four_fields() {
    assert_eq!(wire_price_field("A|B|C|D"), Some("B"));
    assert_eq!(wire_price_field("A|B|C"), None);
    assert_eq!(wire_price_field("A|B|C|D|E"), None);
}

#[test]
fn unsigned_fields_take_a_plus_sign_and_leading_zeros() {
    let q = from_wire_line("MSFT|1|+007|+0012").unwrap();
    assert_eq!(q.volume, 7);
    assert_eq!(q.timestamp_ms, 12);
}

#[test]
fn volume_that_does_not_fit_is_refused() {
    assert_eq!(
        from_wire_line("MSFT|1|4294967296|1").unwrap_err(),
        ParserError::InvalidVolume
    );
    assert_eq!(from_wire_line("MSFT|1|+|1").unwrap_err(), ParserError::InvalidVolume);
    assert_eq!(from_wire_line("MSFT|1||1").unwrap_err(), ParserError::InvalidVolume);
}

#[test]
fn timestamp_that_does_not_fit_is_refused() {
    assert_eq!(
        from_wire_line("MSFT|1|1|340282366920938463463374607431768211456").unwrap_err(),
        ParserError::InvalidTimestamp
    );
}

#[test]
fn checks_come_in_order() {
    // A space wins over everything else.
    assert_eq!(from_wire_line("X Y").unwrap_err(), ParserError::SpaceNotAllowed);
    // The ticker is judged before the price, the price before the volume.
    assert_eq!(from_wire_line("XX|-1|x|x").unwrap_err(), ParserError::InvalidTicker);
    assert_eq!(from_wire_line("AAPL|-1|x|x").unwrap_err(), ParserError::InvalidPrice);
    assert_eq!(from_wire_line("AAPL|1|x|x").unwrap_err(), ParserError::InvalidVolume);
}

#[test]
fn price_reading_is_consulted_only_after_the_ticker() {
    assert_eq!(
        StockQuote::from_wire_line("AAPL|1|2|3", None).unwrap_err(),
        ParserError::InvalidPrice
    );
    assert_eq!(
        StockQuote::from_wire_line("NOPE|1|2|3", None).unwrap_err(),
        ParserError::InvalidTicker
    );
    assert_eq!(
        StockQuote::from_wire_line("AAPL|anything|2|3", Some("7")).unwrap().price,
        "7"
    );
}

#[test]
fn price_is_written_back_in_its_display_form() {
    for (field, shown) in [("150.0", "150"), ("+150", "150"), ("0150", "150"), ("1.5e2", "150"), ("-0", "-0"), ("0.10", "0.1")] {
        let line = format!("AAPL|{}|100000|1779121622", field);
        let q = from_wire_line(&line).unwrap();
        assert_eq!(q.price, shown);
        assert_eq!(q.to_wire_line().unwrap(), format!("AAPL|{}|100000|1779121622", shown));
    }
}

#[test]
fn display_string_names_every_field() {
    let q = quote("NVDA", "99.5", 12, 34);
    assert_eq!(q.to_display_string(), "Ticker:NVDA. Price:99.5. Volume:12. Timestamp:34");
}

#[test]
fn default_quote_is_empty() {
    let q = StockQuote::default();
    assert_eq!(q, quote("", "0", 0, 0));
    assert_eq!(q.to_wire_line().unwrap_err(), ParserError::InvalidTicker);
}
