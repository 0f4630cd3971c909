use std::collections::HashSet;

use rand_distr::{Distribution, Normal, Uniform};
use rand::SeedableRng;
use stock_stream::generator::{
    high_volume_ticker, millis_since_epoch, volume_for, GeneratorError, StockQuotes, HIGH_VOLUME_MULTIPLIER, MAX_VOLUME, MIN_VOLUME,
};
use stock_stream::ticker::{ticker_at, TICKER_COUNT};

/// The prices of a random walk: uniform at first, then each multiplied by a
/// positive normal factor around one and cut to cents.
struct PriceWalk {
    prices: Vec<f64>,
    rng: rand::rngs::ThreadRng,
    multiplier: Normal<f64>,
}

impl PriceWalk {
    fn new() -> PriceWalk {
        let mut rng = rand::rng();
        let initial = Uniform::new_inclusive(0.0, 10000.0).unwrap();
        let prices = (0..TICKER_COUNT).map(|_| initial.sample(&mut rng)).collect();
        PriceWalk { prices, rng, multiplier: Normal::new(1.0, 0.1).unwrap() }
    }

    fn texts(&self) -> Vec<String> {
        self.prices.iter().map(|p| format!("{}", p)).collect()
    }

    fn step(&mut self) -> Vec<String> {
        for price in self.prices.iter_mut() {
            let mut m: f64;
            loop {
                m = self.multiplier.sample(&mut self.rng);
                if m > 0.0 {
                    break;
                }
            }
            *price = (*price * m * 100.0).trunc() / 100.0;
        }
        self.texts()
    }
}

fn valid_tickers() -> HashSet<&'static str> {
    (0..TICKER_COUNT).map(ticker_at).collect()
}

#[test]
fn all_tickers_are_available() {
    let mut walk = PriceWalk::new();
    let mut quotes = StockQuotes::try_new(walk.texts()).unwrap();

    let batch = quotes.tick(walk.step()).unwrap();
    let available: HashSet<&str> = valid_tickers().into_iter().filter(|t| batch.get(t).is_some()).collect();
    for t in valid_tickers() {
        assert_eq!(batch.get(t).unwrap().ticker, t);
    }
    let expected: HashSet<&str> = valid_tickers();

    assert_eq!(available, expected);
}

#[test]
fn some_prices_and_volumes_changes() {
    let mut walk = PriceWalk::new();
    let mut quotes = StockQuotes::try_new(walk.texts()).unwrap();

    let old_quotes = quotes.tick(walk.step()).unwrap();
    let new_quotes = quotes.tick(walk.step()).unwrap();

    let mut prices_are_changes = false;
    let mut volumes_are_changes = false;

    for ticker in valid_tickers() {
        let old = old_quotes.get(ticker).unwrap();
        let new = new_quotes.get(ticker).unwrap();

        if !prices_are_changes && old.price != new.price {
            prices_are_changes = true;
        }
        if !volumes_are_changes && old.volume != new.volume {
            volumes_are_changes = true;
        }
        if prices_are_changes && volumes_are_changes {
            break;
        }
    }
    assert!(prices_are_changes, "Некоторые цены должны меняться");
    assert!(volumes_are_changes, "Некоторые объемы должны меняться");
}

#[test]
fn tick_keeps_table_order_and_given_prices() {
    let prices: Vec<String> = (0..TICKER_COUNT).map(|i| format!("{}", i)).collect();
    let mut quotes = StockQuotes::try_new(prices.clone()).unwrap();
    let next: Vec<String> = (0..TICKER_COUNT).map(|i| format!("{}.5", i)).collect();
    let batch = quotes.tick(next.clone()).unwrap();
    for i in 0..TICKER_COUNT {
        let q = batch.at(i).unwrap();
        assert_eq!(q.ticker, ticker_at(i));
        assert_eq!(q.price, next[i]);
        assert!(q.timestamp_ms > 0);
    }
}

#[test]
fn volumes_stay_in_bounds_and_high_volume_tickers_are_multiplied() {
    let prices: Vec<String> = vec!["1".to_string(); TICKER_COUNT];
    let mut quotes = StockQuotes::try_new(prices.clone()).unwrap();
    for _ in 0..20 {
        let batch = quotes.tick(prices.clone()).unwrap();
        for i in 0..TICKER_COUNT {
            let q = batch.at(i).unwrap();
            if high_volume_ticker(q.ticker) {
                assert_eq!(q.volume % HIGH_VOLUME_MULTIPLIER, 0);
                assert!(q.volume <= MAX_VOLUME * HIGH_VOLUME_MULTIPLIER);
                assert!(q.volume >= MIN_VOLUME * HIGH_VOLUME_MULTIPLIER);
            } else {
                assert!(MIN_VOLUME <= q.volume && q.volume <= MAX_VOLUME);
            }
        }
    }
}

#[test]
fn high_volume_tickers_are_the_three_named() {
    assert!(high_volume_ticker("AAPL"));
    assert!(high_volume_ticker("MSFT"));
    assert!(high_volume_ticker("TSLA"));
    assert!(!high_volume_ticker("GOOGL"));
    assert!(!high_volume_ticker("aapl"));
}

#[test]
fn generator_error_messages() {
    assert_eq!(GeneratorError::DistributionError.message(), "Ошибка генерации распределения");
    assert_eq!(GeneratorError::TimeError.message(), "Ошибка получения времени");
    assert_eq!(GeneratorError::SendError.message(), "Ошибка отправки данных");
}

#[test]
fn volume_for_doubles_only_high_volume_tickers() {
    assert_eq!(volume_for("AAPL", 7), 14);
    assert_eq!(volume_for("TSLA", MAX_VOLUME), 2 * MAX_VOLUME);
    assert_eq!(volume_for("GOOGL", 7), 7);
    assert_eq!(volume_for("MSFT", 0), 0);
}

#[test]
fn no_seed_is_a_distribution_error() {
    let prices: Vec<String> = vec!["1".to_string(); TICKER_COUNT];
    match StockQuotes::from_seed_outcome(prices, None) {
        Err(e) => assert_eq!(e, GeneratorError::DistributionError),
        Ok(_) => panic!("a generator without a seed"),
    }
}

#[test]
fn a_seed_gives_a_quote_per_ticker() {
    let prices: Vec<String> = (0..TICKER_COUNT).map(|i| format!("{}", i)).collect();
    let seeded = rand::rngs::StdRng::seed_from_u64(1);
    let mut quotes = match StockQuotes::from_seed_outcome(prices.clone(), Some(seeded)) {
        Ok(g) => g,
        Err(e) => panic!("{:?}", e),
    };
    let batch = quotes.tick(prices.clone()).unwrap();
    for i in 0..TICKER_COUNT {
        let q = batch.at(i).unwrap();
        assert_eq!(q.ticker, ticker_at(i));
        assert_eq!(q.price, prices[i]);
    }
}

#[test]
fn clock_readings_become_milliseconds_or_a_time_error() {
    let reading = std::time::UNIX_EPOCH.duration_since(std::time::UNIX_EPOCH);
    assert_eq!(millis_since_epoch(reading), Ok(0));
    let later = std::time::UNIX_EPOCH + std::time::Duration::from_millis(1234);
    assert_eq!(millis_since_epoch(later.duration_since(std::time::UNIX_EPOCH)), Ok(1234));
    let before = std::time::UNIX_EPOCH.duration_since(later);
    assert_eq!(millis_since_epoch(before), Err(GeneratorError::TimeError));
}
