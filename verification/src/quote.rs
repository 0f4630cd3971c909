//! Stock quotes and their one-line wire form `TICKER|PRICE|VOLUME|TIMESTAMP`.
use vstd::prelude::*;

use crate::text::{
    chars_of, contains_char, decimal, is_digit, lemma_decimal, lemma_parse_decimal,
    join, lemma_split_concat, lemma_split_join, lemma_split_no_sep, decimal_string, parse_u128, parse_u32, parse_unsigned,
    split_on, split_str, spells_number, lemma_decimal_spells,
};
use crate::ticker::{lemma_valid_ticker_is_symbol, lookup_ticker, valid_ticker};

verus! {

/// A quote of one stock.
///
/// The price is held as the text that stands for it on the wire: the decimal
/// form of a non-negative `f64`, as `Display` writes it (`150.25`, `150`).
#[derive(Debug, PartialEq, Eq)]
pub struct StockQuote {
    /// Ticker; for a valid quote, one of the table's names.
    pub ticker: &'static str,
    /// Price, in its wire text.
    pub price: String,
    /// Traded volume.
    pub volume: u32,
    /// Time of the quote, in milliseconds since the Unix epoch.
    pub timestamp_ms: u128,
}

/// Why a quote could not be read from, or written to, its wire form.
#[derive(Debug, Clone, Copy, PartialEq, Eq)]
pub enum ParserError {
    WrongNumberOfFields,
    SpaceNotAllowed,
    InvalidTicker,
    InvalidPrice,
    InvalidVolume,
    InvalidTimestamp,
}

/// The wire line of a quote with these fields.
pub open spec fn wire_line(ticker: Seq<char>, price: Seq<char>, volume: u32, timestamp_ms: u128) -> Seq<char> {
    ticker + seq!['|'] + price + seq!['|'] + decimal(volume as nat) + seq!['|'] + decimal(
        timestamp_ms as nat,
    )
}

/// The fields of a quote as the contracts see them: ticker, price text,
/// volume, timestamp.
pub type QuoteFields = (Seq<char>, Seq<char>, u32, u128);

/// What reading `line` gives, where `price` is the reading of its second
/// field: the `Display` text of the `f64` it denotes when that is a
/// non-negative number, `None` otherwise. The checks come in this order:
/// spaces, number of fields, ticker, price, volume, timestamp; the quote keeps
/// the price text it was given.
pub open spec fn parse_wire_line(line: Seq<char>, price: Option<Seq<char>>) -> Result<QuoteFields, ParserError> {
    let fields = split_on(line, '|');
    if line.contains(' ') {
        Err(ParserError::SpaceNotAllowed)
    } else if fields.len() != 4 {
        Err(ParserError::WrongNumberOfFields)
    } else if !valid_ticker(fields[0]) {
        Err(ParserError::InvalidTicker)
    } else if price is None {
        Err(ParserError::InvalidPrice)
    } else {
        match parse_unsigned(fields[2], u32::MAX as nat) {
            None => Err(ParserError::InvalidVolume),
            Some(volume) => match parse_unsigned(fields[3], u128::MAX as nat) {
                None => Err(ParserError::InvalidTimestamp),
                Some(timestamp_ms) => Ok((fields[0], price->0, volume as u32, timestamp_ms as u128)),
            },
        }
    }
}

/// The characters of an optional text.
pub open spec fn text_view(t: Option<&str>) -> Option<Seq<char>> {
    match t {
        Some(t) => Some(t@),
        None => None,
    }
}

impl StockQuote {
    /// The fields of this quote, as the contracts see them.
    pub open spec fn fields(&self) -> QuoteFields {
        (self.ticker@, self.price@, self.volume, self.timestamp_ms)
    }

    /// The wire line of this quote.
    pub open spec fn wire(&self) -> Seq<char> {
        wire_line(self.ticker@, self.price@, self.volume, self.timestamp_ms)
    }

    /// The wire line `TICKER|PRICE|VOLUME|TIMESTAMP` of this quote; refused
    /// with `InvalidTicker` when the ticker is not in the table.
    pub fn to_wire_line(&self) -> (r: Result<String, ParserError>)
        ensures
            match r {
                Ok(line) => valid_ticker(self.ticker@) && line@ == self.wire(),
                Err(e) => !valid_ticker(self.ticker@) && e == ParserError::InvalidTicker,
            },
    {
        if lookup_ticker(self.ticker).is_none() {
            return Err(ParserError::InvalidTicker);
        }
        proof {
            reveal_strlit("|");
        }
        let mut line = String::from_str(self.ticker);
        line.append("|");
        line.append(self.price.as_str());
        line.append("|");
        let volume = decimal_string(self.volume as u128);
        line.append(volume.as_str());
        line.append("|");
        let timestamp = decimal_string(self.timestamp_ms);
        line.append(timestamp.as_str());
        Ok(line)
    }

    /// Reads a quote from its wire line. `price` is the reading of the price
    /// field (see `wire_price_field`): the `Display` text of the `f64` it
    /// denotes when that is non-negative, else `None`; it is consulted only
    /// once the spaces, the number of fields and the ticker have passed, and
    /// becomes the quote's price.
    pub fn from_wire_line(line: &str, price: Option<&str>) -> (r: Result<StockQuote, ParserError>)
        ensures
            match r {
                Ok(q) => parse_wire_line(line@, text_view(price)) == Ok::<QuoteFields, ParserError>(
                    q.fields(),
                ),
                Err(e) => parse_wire_line(line@, text_view(price)) == Err::<QuoteFields, ParserError>(
                    e,
                ),
            },
    {
        let cs = chars_of(line);
        if contains_char(&cs, ' ') {
            return Err(ParserError::SpaceNotAllowed);
        }
        let parts = split_str(line, '|');
        if parts.len() != 4 {
            return Err(ParserError::WrongNumberOfFields);
        }
        let ticker = match lookup_ticker(parts[0]) {
            Some(t) => t,
            None => {
                return Err(ParserError::InvalidTicker);
            },
        };
        let price_text = match price {
            Some(p) => p,
            None => {
                return Err(ParserError::InvalidPrice);
            },
        };
        let volume = match parse_u32(parts[2]) {
            Some(v) => v,
            None => {
                return Err(ParserError::InvalidVolume);
            },
        };
        let timestamp_ms = match parse_u128(parts[3]) {
            Some(t) => t,
            None => {
                return Err(ParserError::InvalidTimestamp);
            },
        };
        let price = String::from_str(price_text);
        Ok(StockQuote { ticker, price, volume, timestamp_ms })
    }
}

/// The price field of a line that splits into four `|`-separated fields.
pub fn wire_price_field(line: &str) -> (p: Option<&str>)
    ensures
        match p {
            Some(p) => split_on(line@, '|').len() == 4 && p@ == split_on(line@, '|')[1],
            None => split_on(line@, '|').len() != 4,
        },
{
    let parts = split_str(line, '|');
    if parts.len() == 4 {
        Some(parts[1])
    } else {
        None
    }
}

/// The readable form `Ticker:T. Price:P. Volume:V. Timestamp:S` of a quote.
pub open spec fn display_line(q: QuoteFields) -> Seq<char> {
    "Ticker:"@ + q.0 + ". Price:"@ + q.1 + ". Volume:"@ + decimal(q.2 as nat) + ". Timestamp:"@
        + decimal(q.3 as nat)
}

/// The readable line shows the quote's fields in full: its ticker, its price
/// text, and its volume and timestamp each written in base ten without
/// leading zeros, between the labels `Ticker:`, `. Price:`, `. Volume:` and
/// `. Timestamp:`.
pub proof fn lemma_display_shows_fields(q: QuoteFields)
    ensures
        exists|v: Seq<char>, t: Seq<char>|
            #[trigger] spells_number(v, q.2 as nat) && #[trigger] spells_number(t, q.3 as nat) && display_line(q)
                == "Ticker:"@ + q.0 + ". Price:"@ + q.1 + ". Volume:"@ + v + ". Timestamp:"@ + t,
{
    lemma_decimal_spells(q.2 as nat);
    lemma_decimal_spells(q.3 as nat);
    let v = decimal(q.2 as nat);
    let t = decimal(q.3 as nat);
    assert(spells_number(v, q.2 as nat) && spells_number(t, q.3 as nat) && display_line(q) == "Ticker:"@ + q.0
        + ". Price:"@ + q.1 + ". Volume:"@ + v + ". Timestamp:"@ + t);
}

impl StockQuote {
    /// The readable form `Ticker:T. Price:P. Volume:V. Timestamp:S` of this quote.
    pub fn to_display_string(&self) -> (s: String)
        ensures
            s@ == display_line(self.fields()),
    {
        let mut s = String::from_str("Ticker:");
        s.append(self.ticker);
        s.append(". Price:");
        s.append(self.price.as_str());
        s.append(". Volume:");
        let volume = decimal_string(self.volume as u128);
        s.append(volume.as_str());
        s.append(". Timestamp:");
        let timestamp = decimal_string(self.timestamp_ms);
        s.append(timestamp.as_str());
        s
    }
}

impl Default for StockQuote {
    /// The quote with an empty ticker, price `0`, no volume and time zero.
    fn default() -> (q: StockQuote)
        ensures
            q.ticker@ == Seq::<char>::empty(),
            q.price@ == seq!['0'],
            q.volume == 0,
            q.timestamp_ms == 0,
    {
        proof {
            reveal_strlit("");
            reveal_strlit("0");
        }
        StockQuote { ticker: "", price: String::from_str("0"), volume: 0, timestamp_ms: 0 }
    }
}

/// Writing a quote with a table ticker and a price text free of `|` and
/// spaces, then reading the line back with that text as the price's reading,
/// gives the same quote; the price field of the line is the price text.
pub proof fn lemma_wire_round_trip(ticker: Seq<char>, price: Seq<char>, volume: u32, timestamp_ms: u128)
    requires
        valid_ticker(ticker),
        !price.contains('|'),
        !price.contains(' '),
    ensures
        parse_wire_line(wire_line(ticker, price, volume, timestamp_ms), Some(price)) == Ok::<
            QuoteFields,
            ParserError,
        >((ticker, price, volume, timestamp_ms)),
        split_on(wire_line(ticker, price, volume, timestamp_ms), '|').len() == 4,
        split_on(wire_line(ticker, price, volume, timestamp_ms), '|')[1] == price,
{
    let v = decimal(volume as nat);
    let t = decimal(timestamp_ms as nat);
    lemma_valid_ticker_is_symbol(ticker);
    lemma_decimal(volume as nat);
    lemma_decimal(timestamp_ms as nat);
    lemma_parse_decimal(volume as nat, u32::MAX as nat);
    lemma_parse_decimal(timestamp_ms as nat, u128::MAX as nat);
    assert(!ticker.contains('|') && !ticker.contains(' ')) by {
        if ticker.contains('|') || ticker.contains(' ') {
            let k = choose|k: int| 0 <= k < ticker.len() && (ticker[k] == '|' || ticker[k] == ' ');
            assert('A' <= ticker[k] <= 'Z');
        }
    }
    assert(!v.contains('|') && !v.contains(' ')) by {
        if v.contains('|') || v.contains(' ') {
            let k = choose|k: int| 0 <= k < v.len() && (v[k] == '|' || v[k] == ' ');
            assert(is_digit(v[k]));
        }
    }
    assert(!t.contains('|') && !t.contains(' ')) by {
        if t.contains('|') || t.contains(' ') {
            let k = choose|k: int| 0 <= k < t.len() && (t[k] == '|' || t[k] == ' ');
            assert(is_digit(t[k]));
        }
    }
    let line = wire_line(ticker, price, volume, timestamp_ms);
    let a = ticker + seq!['|'] + price;
    let b = a + seq!['|'] + v;
    assert(line == b + seq!['|'] + t);
    lemma_split_no_sep(ticker, '|');
    lemma_split_no_sep(price, '|');
    lemma_split_no_sep(v, '|');
    lemma_split_no_sep(t, '|');
    lemma_split_concat(ticker, price, '|');
    lemma_split_concat(a, v, '|');
    lemma_split_concat(b, t, '|');
    let fields = split_on(line, '|');
    assert(fields =~= seq![ticker, price, v, t]);
    assert(!line.contains(' ')) by {
        if line.contains(' ') {
            let k = choose|k: int| 0 <= k < line.len() && line[k] == ' ';
            if k < ticker.len() {
                assert(line[k] == ticker[k]);
            } else if k == ticker.len() {
            } else if k < ticker.len() + 1 + price.len() {
                assert(line[k] == price[k - ticker.len() - 1]);
            } else if k == ticker.len() + 1 + price.len() {
            } else if k < ticker.len() + 2 + price.len() + v.len() {
                assert(line[k] == v[k - ticker.len() - 2 - price.len()]);
            } else if k == ticker.len() + 2 + price.len() + v.len() {
            } else {
                assert(line[k] == t[k - ticker.len() - 3 - price.len() - v.len()]);
            }
        }
    }
}

/// Whether `line`, read with the price reading `price`, is already in the
/// form a quote is written in: its price field is that reading and its
/// volume and timestamp are in their shortest decimal form.
pub open spec fn in_written_form(line: Seq<char>, price: Seq<char>) -> bool {
    match parse_wire_line(line, Some(price)) {
        Ok(q) => {
            let fields = split_on(line, '|');
            &&& fields[1] == price
            &&& fields[2] == decimal(q.2 as nat)
            &&& fields[3] == decimal(q.3 as nat)
        },
        Err(_) => false,
    }
}

/// Reading a line that is already in written form and writing the quote
/// again gives the line back.
pub proof fn lemma_rewrite_gives_line(line: Seq<char>, price: Seq<char>)
    requires
        in_written_form(line, price),
    ensures
        match parse_wire_line(line, Some(price)) {
            Ok(q) => wire_line(q.0, q.1, q.2, q.3) == line,
            Err(_) => false,
        },
{
    let fields = split_on(line, '|');
    lemma_split_join(line, '|');
    let q = parse_wire_line(line, Some(price))->Ok_0;
    assert(fields.len() == 4);
    let sep = seq!['|'];
    assert(fields.drop_last().drop_last().drop_last() =~= seq![fields[0]]);
    assert(join(fields.drop_last().drop_last().drop_last(), sep) == fields[0]);
    assert(join(fields.drop_last().drop_last(), sep) == fields[0] + sep + fields[1]) by {
        assert(fields.drop_last().drop_last().last() == fields[1]);
    }
    assert(join(fields.drop_last(), sep) == fields[0] + sep + fields[1] + sep + fields[2]) by {
        assert(fields.drop_last().last() == fields[2]);
    }
    assert(fields.last() == fields[3]);
    assert(join(fields, sep) == fields[0] + sep + fields[1] + sep + fields[2] + sep + fields[3]);
}

} // verus!
