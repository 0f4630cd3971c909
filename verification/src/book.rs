//! A batch of quotes filed by ticker: at most one quote per ticker of the
//! table, as a map from ticker to quote holds them.
use vstd::prelude::*;

use crate::quote::StockQuote;
use crate::ticker::{lemma_table_index, table_index, ticker_index, ticker_name, TICKER_COUNT};

verus! {

/// At most one quote per ticker of the table, each filed under its own ticker.
pub struct QuoteBook {
    entries: Vec<Option<StockQuote>>,
}

/// The quote of `quotes` filed under position `i`: the last one whose ticker
/// is the table's name at `i`, as inserting them in order into a map leaves it.
pub open spec fn filed(quotes: Seq<StockQuote>, i: usize) -> Option<StockQuote>
    decreases quotes.len(),
{
    if quotes.len() == 0 {
        None
    } else if table_index(quotes.last().ticker@) == Some(i) {
        Some(quotes.last())
    } else {
        filed(quotes.drop_last(), i)
    }
}

impl QuoteBook {
    /// One slot per ticker of the table, and a quote in a slot carries that
    /// slot's ticker.
    #[verifier::type_invariant]
    pub closed spec fn wf(self) -> bool {
        &&& self.entries@.len() == TICKER_COUNT
        &&& forall|i: int|
            0 <= i < TICKER_COUNT ==> (#[trigger] self.entries@[i] matches Some(q) ==> q.ticker@
                == ticker_name(i as usize))
    }

    /// The quote filed under position `i` of the table.
    pub closed spec fn entry(self, i: int) -> Option<StockQuote> {
        self.entries@[i]
    }

    /// A filed quote carries the ticker of its slot.
    pub proof fn lemma_entry_ticker(self, i: int)
        requires
            self.wf(),
            0 <= i < TICKER_COUNT,
        ensures
            self.entry(i) matches Some(q) ==> q.ticker@ == ticker_name(i as usize),
    {
    }

    /// The book of a batch: each quote filed under its ticker, a later quote
    /// of a ticker replacing an earlier one; quotes whose ticker is not in the
    /// table are left out.
    pub fn from_quotes(quotes: Vec<StockQuote>) -> (book: QuoteBook)
        ensures
            forall|i: int| 0 <= i < TICKER_COUNT ==> #[trigger] book.entry(i) == filed(quotes@, i as usize),
    {
        let ghost all = quotes@;
        let mut entries: Vec<Option<StockQuote>> = Vec::new();
        let mut i: usize = 0;
        while i < TICKER_COUNT
            invariant
                i <= TICKER_COUNT,
                entries@.len() == i,
                forall|k: int| 0 <= k < i ==> #[trigger] entries@[k] is None,
            decreases TICKER_COUNT - i,
        {
            entries.push(None);
            i = i + 1;
        }
        let mut rest = quotes;
        let n = rest.len();
        let mut j: usize = 0;
        assert(all.skip(0) =~= all);
        while rest.len() > 0
            invariant
                all.len() == n,
                j <= n,
                rest@ == all.skip(j as int),
                entries@.len() == TICKER_COUNT,
                forall|k: int| 0 <= k < TICKER_COUNT ==> #[trigger] entries@[k] == filed(all.take(j as int), k as usize),
                forall|k: int|
                    0 <= k < TICKER_COUNT ==> (#[trigger] entries@[k] matches Some(q) ==> q.ticker@
                        == ticker_name(k as usize)),
            decreases rest@.len(),
        {
            let q = rest.remove(0);
            assert(all.take(j + 1).drop_last() =~= all.take(j as int));
            assert(all.take(j + 1).last() == all[j as int]);
            assert(all.skip(j as int)[0] == all[j as int]);
            assert(rest@ =~= all.skip(j + 1));
            proof {
                lemma_table_index(q.ticker@);
            }
            match ticker_index(q.ticker) {
                Some(k) => {
                    entries.set(k, Some(q));
                },
                None => {
                },
            }
            j = j + 1;
        }
        assert(all.take(j as int) =~= all);
        QuoteBook { entries }
    }

    /// The book that holds, for each position of the table, the quote at that
    /// position of `quotes`.
    pub fn from_table_order(quotes: Vec<StockQuote>) -> (book: QuoteBook)
        requires
            quotes@.len() == TICKER_COUNT,
            forall|i: int| 0 <= i < TICKER_COUNT ==> (#[trigger] quotes@[i]).ticker@ == ticker_name(i as usize),
        ensures
            forall|i: int| 0 <= i < TICKER_COUNT ==> #[trigger] book.entry(i) == Some(quotes@[i]),
    {
        let ghost all = quotes@;
        let mut entries: Vec<Option<StockQuote>> = Vec::new();
        let mut rest = quotes;
        let mut j: usize = 0;
        assert(all.skip(0) =~= all);
        while rest.len() > 0
            invariant
                all.len() == TICKER_COUNT,
                forall|i: int| 0 <= i < TICKER_COUNT ==> (#[trigger] all[i]).ticker@ == ticker_name(i as usize),
                j <= TICKER_COUNT,
                rest@ == all.skip(j as int),
                entries@.len() == j,
                forall|k: int| 0 <= k < j ==> #[trigger] entries@[k] == Some(all[k]),
            decreases rest@.len(),
        {
            let q = rest.remove(0);
            assert(all.skip(j as int)[0] == all[j as int]);
            assert(rest@ =~= all.skip(j + 1));
            entries.push(Some(q));
            j = j + 1;
        }
        QuoteBook { entries }
    }

    /// The quote filed under the table's ticker at position `i`.
    pub fn at(&self, i: usize) -> (q: Option<&StockQuote>)
        requires
            i < TICKER_COUNT,
        ensures
            match q {
                Some(q) => self.entry(i as int) == Some(*q),
                None => self.entry(i as int) is None,
            },
    {
        proof {
            use_type_invariant(self);
        }
        match &self.entries[i] {
            Some(q) => Some(q),
            None => None,
        }
    }

    /// The quote filed under ticker `t`, as a lookup in a map by ticker gives it.
    pub fn get(&self, t: &str) -> (q: Option<&StockQuote>)
        ensures
            match q {
                Some(q) => book_quote(*self, t@) == Some(*q),
                None => book_quote(*self, t@) is None,
            },
    {
        match ticker_index(t) {
            Some(i) => {
                proof {
                    lemma_table_index(t@);
                }
                self.at(i)
            },
            None => None,
        }
    }
}

/// The quote of the book filed under ticker `t`.
pub open spec fn book_quote(book: QuoteBook, t: Seq<char>) -> Option<StockQuote> {
    match table_index(t) {
        Some(i) => book.entry(i as int),
        None => None,
    }
}

} // verus!
