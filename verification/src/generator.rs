//! The quote generator: one quote per ticker, refreshed on every tick.
use vstd::prelude::*;

use rand::{Rng, SeedableRng};

use crate::book::QuoteBook;
use crate::clock::Clock;
use crate::quote::StockQuote;
use crate::text::str_equal;
use crate::ticker::{ticker_at, ticker_name, TICKER_COUNT};

verus! {

/// Smallest volume drawn for a quote.
pub const MIN_VOLUME: u32 = 0;

/// Largest volume drawn for a quote.
pub const MAX_VOLUME: u32 = 100000;

/// Factor applied to the volume of the high-volume tickers.
pub const HIGH_VOLUME_MULTIPLIER: u32 = 2;

/// Why the generator stopped.
#[derive(Debug, Clone, Copy, PartialEq, Eq)]
pub enum GeneratorError {
    DistributionError,
    TimeError,
    SendError,
}

/// The message of each generator error.
pub open spec fn generator_error_text(e: GeneratorError) -> Seq<char> {
    match e {
        GeneratorError::DistributionError => "Ошибка генерации распределения"@,
        GeneratorError::TimeError => "Ошибка получения времени"@,
        GeneratorError::SendError => "Ошибка отправки данных"@,
    }
}

impl GeneratorError {
    /// The message of this error.
    pub fn message(&self) -> (s: &'static str)
        ensures
            s@ == generator_error_text(*self),
    {
        match self {
            GeneratorError::DistributionError => "Ошибка генерации распределения",
            GeneratorError::TimeError => "Ошибка получения времени",
            GeneratorError::SendError => "Ошибка отправки данных",
        }
    }
}

/// The standard seedable random number generator.
#[verifier::external_type_specification]
#[verifier::external_body]
pub struct ExStdRng(rand::rngs::StdRng);

/// A point in time of the system clock.
#[verifier::external_type_specification]
#[verifier::external_body]
pub struct ExSystemTime(std::time::SystemTime);

/// The error of a clock reading before the Unix epoch.
#[verifier::external_type_specification]
#[verifier::external_body]
pub struct ExSystemTimeError(std::time::SystemTimeError);

/// A generator seeded from the operating system's source
/// (`SeedableRng::try_from_os_rng`), or `None` when that source fails; which,
/// depends on the system, so nothing is stated of it.
#[verifier::external_body]
fn os_seeded_rng() -> Option<rand::rngs::StdRng> {
    rand::rngs::StdRng::try_from_os_rng().ok()
}

/// A value drawn uniformly from `low..=high` (`Rng::random_range`); it lies in
/// that range. The draw itself rests on chance.
#[verifier::external_body]
fn random_in(rng: &mut rand::rngs::StdRng, low: u32, high: u32) -> (v: u32)
    requires
        low <= high,
    ensures
        low <= v <= high,
{
    rng.random_range(low..=high)
}

/// The current time of the system clock (`SystemTime::now`).
#[verifier::external_body]
fn system_now() -> std::time::SystemTime {
    std::time::SystemTime::now()
}

/// The time passed from the Unix epoch to `t` (`SystemTime::duration_since`),
/// or an error when `t` lies before it; which, depends on the clock.
#[verifier::external_body]
fn since_unix_epoch(t: std::time::SystemTime) -> Result<std::time::Duration, std::time::SystemTimeError> {
    t.duration_since(std::time::UNIX_EPOCH)
}

/// The whole milliseconds of `d` (`Duration::as_millis`).
#[verifier::external_body]
fn whole_millis(d: std::time::Duration) -> u128 {
    d.as_millis()
}

/// The milliseconds of a clock reading taken against the Unix epoch:
/// `TimeError` exactly when the reading lies before the epoch.
pub fn millis_since_epoch(reading: Result<std::time::Duration, std::time::SystemTimeError>) -> (r: Result<u128, GeneratorError>)
    ensures
        r is Err <==> reading is Err,
        r matches Err(e) ==> e == GeneratorError::TimeError,
{
    match reading {
        Ok(d) => Ok(whole_millis(d)),
        Err(_) => Err(GeneratorError::TimeError),
    }
}

/// Milliseconds since the Unix epoch, by the system clock; `TimeError` when
/// the clock reads before the epoch.
pub fn time_now() -> (r: Result<u128, GeneratorError>)
    ensures
        r matches Err(e) ==> e == GeneratorError::TimeError,
{
    millis_since_epoch(since_unix_epoch(system_now()))
}

/// The tickers whose volume is multiplied.
pub open spec fn is_high_volume(t: Seq<char>) -> bool {
    t == "AAPL"@ || t == "MSFT"@ || t == "TSLA"@
}

/// Whether `t` is one of the high-volume tickers.
pub fn high_volume_ticker(t: &str) -> (b: bool)
    ensures
        b == is_high_volume(t@),
{
    str_equal(t, "AAPL") || str_equal(t, "MSFT") || str_equal(t, "TSLA")
}

/// The volume of a quote of ticker `t` for the drawn value `drawn`.
pub open spec fn spec_volume_for(t: Seq<char>, drawn: u32) -> int {
    if is_high_volume(t) {
        drawn * HIGH_VOLUME_MULTIPLIER
    } else {
        drawn as int
    }
}

/// The volume of a quote of ticker `t` for the drawn value `drawn`: the draw,
/// multiplied for the high-volume tickers.
pub fn volume_for(t: &str, drawn: u32) -> (v: u32)
    requires
        drawn <= MAX_VOLUME,
    ensures
        v == spec_volume_for(t@, drawn),
{
    if high_volume_ticker(t) {
        drawn * HIGH_VOLUME_MULTIPLIER
    } else {
        drawn
    }
}

/// A volume as the generator draws it for ticker `t`: the volume for some
/// draw within the bounds.
pub open spec fn drawn_volume(t: Seq<char>, volume: u32) -> bool {
    exists|d: u32| MIN_VOLUME <= d <= MAX_VOLUME && volume == #[trigger] spec_volume_for(t, d)
}

/// A drawn volume lies between the smallest volume and the largest one
/// multiplied.
pub proof fn lemma_drawn_volume_bounds(t: Seq<char>, volume: u32)
    requires
        drawn_volume(t, volume),
    ensures
        MIN_VOLUME <= volume <= MAX_VOLUME * HIGH_VOLUME_MULTIPLIER,
{
    let d = choose|d: u32| MIN_VOLUME <= d <= MAX_VOLUME && volume == #[trigger] spec_volume_for(t, d);
}

/// A copy of a quote.
pub fn copy_quote(q: &StockQuote) -> (c: StockQuote)
    ensures
        c.fields() == q.fields(),
{
    StockQuote {
        ticker: q.ticker,
        price: q.price.clone(),
        volume: q.volume,
        timestamp_ms: q.timestamp_ms,
    }
}

/// The last quote of every ticker, with the generator that draws the volumes.
pub struct StockQuotes {
    last_quotes: Vec<StockQuote>,
    rng: rand::rngs::StdRng,
    clock: Clock,
}

impl StockQuotes {
    /// The last quotes, one per ticker of the table, in its order.
    pub closed spec fn quotes(&self) -> Seq<StockQuote> {
        self.last_quotes@
    }

    /// Every reading of the clock that stamped the quotes, in the order taken.
    pub closed spec fn clock_readings(&self) -> Seq<u128> {
        self.clock.readings()
    }

    /// Holds one quote per ticker of the table, in its order.
    pub open spec fn wf(&self) -> bool {
        &&& self.quotes().len() == TICKER_COUNT
        &&& forall|i: int| 0 <= i < TICKER_COUNT ==> (#[trigger] self.quotes()[i]).ticker@ == ticker_name(i as usize)
    }

    /// A quote for every ticker of the table, each with its price from
    /// `initial_prices` (in the table's order), a drawn volume and the
    /// current time, its volumes drawn by a generator seeded from the
    /// operating system; see `from_seed_outcome` for when it is refused.
    pub fn try_new(initial_prices: Vec<String>) -> (r: Result<StockQuotes, GeneratorError>)
        requires
            initial_prices@.len() == TICKER_COUNT,
        ensures
            match r {
                Ok(g) => {
                    &&& g.wf()
                    &&& forall|i: int|
                        0 <= i < TICKER_COUNT ==> {
                            &&& (#[trigger] g.quotes()[i]).price@ == initial_prices@[i]@
                            &&& MIN_VOLUME <= g.quotes()[i].volume <= MAX_VOLUME
                        }
                },
                Err(e) => e == GeneratorError::TimeError || e == GeneratorError::DistributionError,
            },
    {
        Self::from_seed_outcome(initial_prices, os_seeded_rng())
    }

    /// The generator of `try_new`, given how seeding went: `DistributionError`
    /// exactly when there is no seeded generator; otherwise a quote for every
    /// ticker as `try_new` says, or `TimeError` when the clock reads before
    /// the Unix epoch.
    pub fn from_seed_outcome(initial_prices: Vec<String>, seeded: Option<rand::rngs::StdRng>) -> (r: Result<StockQuotes, GeneratorError>)
        requires
            initial_prices@.len() == TICKER_COUNT,
        ensures
            seeded is None ==> r == Err::<StockQuotes, GeneratorError>(GeneratorError::DistributionError),
            seeded is Some ==> match r {
                Ok(g) => {
                    &&& g.wf()
                    &&& forall|i: int|
                        0 <= i < TICKER_COUNT ==> {
                            &&& (#[trigger] g.quotes()[i]).price@ == initial_prices@[i]@
                            &&& MIN_VOLUME <= g.quotes()[i].volume <= MAX_VOLUME
                        }
                },
                Err(e) => e == GeneratorError::TimeError,
            },
            r matches Ok(g) ==> {
                &&& g.clock_readings().len() == TICKER_COUNT
                &&& forall|i: int| 0 <= i < TICKER_COUNT ==> (#[trigger] g.quotes()[i]).timestamp_ms == g.clock_readings()[i]
            },
    {
        let mut rng = match seeded {
            Some(rng) => rng,
            None => {
                return Err(GeneratorError::DistributionError);
            },
        };
        let mut clock = Clock::new();
        let mut quotes: Vec<StockQuote> = Vec::new();
        let mut i: usize = 0;
        while i < TICKER_COUNT
            invariant
                seeded is Some,
                clock.readings().len() == i,
                forall|k: int| 0 <= k < i ==> (#[trigger] quotes@[k]).timestamp_ms == clock.readings()[k],
                initial_prices@.len() == TICKER_COUNT,
                i <= TICKER_COUNT,
                quotes@.len() == i,
                forall|k: int|
                    0 <= k < i ==> {
                        &&& (#[trigger] quotes@[k]).ticker@ == ticker_name(k as usize)
                        &&& quotes@[k].price@ == initial_prices@[k]@
                        &&& MIN_VOLUME <= quotes@[k].volume <= MAX_VOLUME
                    },
            decreases TICKER_COUNT - i,
        {
            let ticker = ticker_at(i);
            let price = initial_prices[i].clone();
            let volume = random_in(&mut rng, MIN_VOLUME, MAX_VOLUME);
            let timestamp_ms = clock.read()?;
            quotes.push(StockQuote { ticker, price, volume, timestamp_ms });
            i = i + 1;
        }
        Ok(StockQuotes { last_quotes: quotes, rng, clock })
    }

    /// Moves every quote on: its price becomes the one given for it in
    /// `new_prices` (in the table's order), its volume is drawn afresh
    /// (multiplied for the high-volume tickers) and its time is a reading of
    /// the clock taken during this call: the quote at position `i` carries the
    /// `i`-th of the readings this call added to the clock's record. Returns
    /// a copy of all quotes filed by ticker, or `TimeError` when the clock
    /// cannot be read; the quotes before that point have then moved on already.
    pub fn tick(&mut self, new_prices: Vec<String>) -> (r: Result<QuoteBook, GeneratorError>)
        requires
            old(self).wf(),
            new_prices@.len() == TICKER_COUNT,
        ensures
            final(self).wf(),
            match r {
                Ok(batch) => {
                    &&& forall|i: int|
                        0 <= i < TICKER_COUNT ==> {
                            &&& #[trigger] batch.entry(i) matches Some(q) && q.fields() == final(self).quotes()[i].fields()
                            &&& final(self).quotes()[i].price@ == new_prices@[i]@
                            &&& drawn_volume(final(self).quotes()[i].ticker@, final(self).quotes()[i].volume)
                        }
                },
                Err(e) => e == GeneratorError::TimeError,
            },
            old(self).clock_readings().is_prefix_of(final(self).clock_readings()),
            r is Ok ==> {
                &&& final(self).clock_readings().len() == old(self).clock_readings().len() + TICKER_COUNT
                &&& forall|i: int|
                    0 <= i < TICKER_COUNT ==> (#[trigger] final(self).quotes()[i]).timestamp_ms
                        == final(self).clock_readings()[old(self).clock_readings().len() + i]
            },
    {
        let ghost start = self.clock_readings();
        let mut i: usize = 0;
        while i < TICKER_COUNT
            invariant
                new_prices@.len() == TICKER_COUNT,
                i <= TICKER_COUNT,
                self.wf(),
                start == old(self).clock_readings(),
                self.clock_readings().len() == start.len() + i,
                start.is_prefix_of(self.clock_readings()),
                forall|k: int|
                    0 <= k < i ==> {
                        &&& (#[trigger] self.quotes()[k]).price@ == new_prices@[k]@
                        &&& self.quotes()[k].timestamp_ms == self.clock_readings()[start.len() + k]
                        &&& drawn_volume(self.quotes()[k].ticker@, self.quotes()[k].volume)
                    },
            decreases TICKER_COUNT - i,
        {
            let ticker = self.last_quotes[i].ticker;
            let drawn = random_in(&mut self.rng, MIN_VOLUME, MAX_VOLUME);
            let volume = volume_for(ticker, drawn);
            let timestamp_ms = self.clock.read()?;
            let price = new_prices[i].clone();
            self.last_quotes.set(i, StockQuote { ticker, price, volume, timestamp_ms });
            i = i + 1;
        }
        let mut batch: Vec<StockQuote> = Vec::new();
        let mut j: usize = 0;
        while j < TICKER_COUNT
            invariant
                j <= TICKER_COUNT,
                self.wf(),
                self.clock_readings().len() == start.len() + TICKER_COUNT,
                start.is_prefix_of(self.clock_readings()),
                start == old(self).clock_readings(),
                forall|k: int|
                    0 <= k < TICKER_COUNT ==> (#[trigger] self.quotes()[k]).timestamp_ms
                        == self.clock_readings()[start.len() + k],
                batch@.len() == j,
                forall|k: int| 0 <= k < j ==> (#[trigger] batch@[k]).fields() == self.quotes()[k].fields(),
                forall|k: int| 0 <= k < j ==> (#[trigger] batch@[k]).ticker@ == ticker_name(k as usize),
            decreases TICKER_COUNT - j,
        {
            batch.push(copy_quote(&self.last_quotes[j]));
            j = j + 1;
        }
        Ok(QuoteBook::from_table_order(batch))
    }
}

} // verus!
