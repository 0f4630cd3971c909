use stock_stream::client::{accepted, file_tickers, stream_request};
use stock_stream::network::{
    command_outcome, is_ping, parse_stream_command, PingClock, CommandResponse, NetworkError, StreamCommand,
    TickerSelection,
};
use stock_stream::server::{AppError, Args, DEFAULT_GENERATE_MS, DEFAULT_PING_TIMEOUT_SECS, DEFAULT_PORT};
use stock_stream::generator::GeneratorError;

fn answer(command: &str, connected: bool) -> String {
    command_outcome(&parse_stream_command(command), connected).response_line()
}

#[test]
fn well_formed_command_is_accepted() {
    match parse_stream_command("STREAM 127.0.0.1:5000 AAPL, MSFT\n") {
        StreamCommand::Stream { udp_addr, tickers: TickerSelection::Known(list) } => {
            assert_eq!(udp_addr, "127.0.0.1:5000");
            assert_eq!(list, vec!["AAPL", "MSFT"]);
        },
        _ => panic!("a well-formed command must be read as a stream request"),
    }
    assert_eq!(answer("STREAM 127.0.0.1:5000 AAPL, MSFT\n", true), "OK\n");
}

#[test]
fn command_without_stream_word_is_invalid() {
    assert!(matches!(parse_stream_command("STREAM\n"), StreamCommand::Invalid));
    assert!(matches!(parse_stream_command("stream a b\n"), StreamCommand::Invalid));
    assert!(matches!(parse_stream_command(""), StreamCommand::Invalid));
    assert_eq!(answer("HELLO there\n", true), "ERR invalid command\n");
    // The form is judged before the address.
    assert_eq!(answer("HELLO there\n", false), "ERR invalid command\n");
}

#[test]
fn bad_address_is_reported_before_the_tickers() {
    assert_eq!(answer("STREAM nowhere\n", false), "ERR invalid udp address\n");
    assert_eq!(answer("STREAM nowhere XXX\n", false), "ERR invalid udp address\n");
}

#[test]
fn command_without_tickers_is_refused() {
    assert!(matches!(
        parse_stream_command("STREAM 127.0.0.1:5000\n"),
        StreamCommand::Stream { tickers: TickerSelection::Missing, .. }
    ));
    assert_eq!(answer("STREAM 127.0.0.1:5000\n", true), "ERR empty ticker list\n");
}

#[test]
fn first_unknown_ticker_is_named() {
    assert_eq!(answer("STREAM a:1 AAPL,XYZ,QQQ\n", true), "ERR unknown ticker XYZ\n");
    // An empty name between two commas is unknown too.
    assert_eq!(answer("STREAM a:1 AAPL,,MSFT\n", true), "ERR unknown ticker \n");
    // A space after the address leaves an empty tickers part.
    assert_eq!(answer("STREAM a:1 \n", true), "ERR unknown ticker \n");
}

#[test]
fn spaces_in_the_ticker_list_are_ignored() {
    match parse_stream_command("STREAM  a:1   A APL ,\tMSFT \r\n") {
        StreamCommand::Stream { udp_addr, tickers } => {
            assert_eq!(udp_addr, "");
            match tickers {
                TickerSelection::Unknown(t) => assert_eq!(t, "a:1AAPL"),
                _ => panic!("the address moved into the tickers part"),
            }
        },
        StreamCommand::Invalid => panic!("the command starts with STREAM"),
    }
    match parse_stream_command("STREAM a:1 A APL ,MS FT\u{3000}\n") {
        StreamCommand::Stream { tickers: TickerSelection::Known(list), .. } => {
            assert_eq!(list, vec!["AAPL", "MSFT"]);
        },
        _ => panic!("spaces and trailing white space are dropped"),
    }
}

#[test]
fn address_is_trimmed() {
    match parse_stream_command("STREAM \u{a0}host:9\u{2003} TSLA") {
        StreamCommand::Stream { udp_addr, tickers: TickerSelection::Known(list) } => {
            assert_eq!(udp_addr, "host:9");
            assert_eq!(list, vec!["TSLA"]);
        },
        _ => panic!("the address must be trimmed"),
    }
}

#[test]
fn client_request_is_understood_by_the_server() {
    let tickers = vec!["AAPL", "MSFT", "T"];
    let request = stream_request("127.0.0.1:34254", &tickers);
    assert_eq!(request, "STREAM 127.0.0.1:34254 AAPL, MSFT, T\n");
    match parse_stream_command(&request) {
        StreamCommand::Stream { udp_addr, tickers: TickerSelection::Known(list) } => {
            assert_eq!(udp_addr, "127.0.0.1:34254");
            assert_eq!(list, tickers);
        },
        _ => panic!("the server must read the client's request"),
    }
}

#[test]
fn client_recognises_the_acceptance() {
    assert!(accepted("OK\n"));
    assert!(accepted(&CommandResponse::Accepted.response_line()));
    assert!(!accepted("OK"));
    assert!(!accepted("ERR invalid command\n"));
}

#[test]
fn ping_is_four_letters_in_any_case() {
    let mut buf = [0u8; 128];
    buf[..4].copy_from_slice(b"PiNg");
    assert!(is_ping(&buf, 4));
    assert!(!is_ping(&buf, 5));
    assert!(!is_ping(&buf, 3));
    buf[..4].copy_from_slice(b"PONG");
    assert!(!is_ping(&buf, 4));
    assert!(is_ping(b"ping", 4));
}

#[test]
fn error_messages() {
    assert_eq!(NetworkError::ListenError.message(), "ListenError");
    assert_eq!(NetworkError::CommandReceive.message(), "CommandReceive");
    assert_eq!(AppError::JoinError.message(), "Ошибка при ожидании завершения потоков");
    assert_eq!(
        AppError::GeneratorError(GeneratorError::TimeError).message(),
        "Ошибка генератора: Ошибка получения времени"
    );
    assert_eq!(
        AppError::NetworkError(NetworkError::AcceptError).message(),
        "Ошибка прослушивания: AcceptError"
    );
}

#[test]
fn server_defaults() {
    let args = Args::default();
    assert_eq!(args.port, DEFAULT_PORT);
    assert_eq!(args.port, 8080);
    assert_eq!(args.timeout, DEFAULT_PING_TIMEOUT_SECS);
    assert_eq!(args.timeout, 10);
    assert_eq!(args.generate_ms, DEFAULT_GENERATE_MS);
    assert_eq!(args.generate_ms, 500);
}

#[test]
fn ping_clock_restarts_on_a_ping_only() {
    let mut clock = PingClock::new(100);
    assert!(!clock.expired(150, 50));
    assert!(clock.expired(151, 50));
    clock.on_datagram(140, b"DATA", 4);
    assert_eq!(clock.last_ping_ns, 100);
    clock.on_datagram(140, b"ping", 4);
    assert_eq!(clock.last_ping_ns, 140);
    assert!(!clock.expired(151, 50));
    // A clock reading before the last ping counts as no time passed.
    assert!(!clock.expired(10, 0));
}

#[test]
fn ticker_file_lines_are_table_tickers() {
    let lines = vec!["AAPL".to_string(), "MSFT".to_string()];
    assert_eq!(file_tickers(&lines).unwrap(), vec!["AAPL", "MSFT"]);
    let bad = vec!["AAPL".to_string(), "aapl".to_string(), "XX".to_string()];
    assert_eq!(file_tickers(&bad).unwrap_err(), "aapl");
    assert_eq!(file_tickers(&Vec::new()).unwrap(), Vec::<&str>::new());
}
