//! Routing of quote batches to the subscriptions that asked for them.
use vstd::prelude::*;

use crate::book::{book_quote, QuoteBook};
use crate::ticker::{lemma_table_index, table_index, ticker_name, valid_ticker};

verus! {

/// The sending half of a standard channel, carried through the library.
#[verifier::external_type_specification]
#[verifier::external_body]
#[verifier::reject_recursive_types(T)]
pub struct ExSender<T>(std::sync::mpsc::Sender<T>);

/// The messages that the channel behind `sender` has accepted from it, in the
/// order they were sent.
pub uninterp spec fn accepted_messages(sender: std::sync::mpsc::Sender<Vec<u8>>) -> Seq<Seq<u8>>;

/// Hands `data` to the channel behind `sender` (`Sender::send`). The channel
/// takes it, and it joins what the channel accepted, exactly when the call
/// succeeds; a failed send (the receiving side is gone) hands it back and the
/// channel gets nothing. Whether the receiving side is still there is not
/// visible to the library, so the result itself is not stated.
#[verifier::external_body]
fn send_bytes(sender: &mut std::sync::mpsc::Sender<Vec<u8>>, data: Vec<u8>) -> (delivered: bool)
    ensures
        delivered ==> accepted_messages(*final(sender)) == accepted_messages(*old(sender)).push(data@),
        !delivered ==> accepted_messages(*final(sender)) == accepted_messages(*old(sender)),
{
    sender.send(data).is_ok()
}

/// A client's wish to receive the quotes of some tickers over a channel.
pub struct Subscription {
    /// Tickers the client asked for, in the order it gave them.
    pub tickers: Vec<&'static str>,
    /// Where the wire lines of those quotes go.
    pub sender: std::sync::mpsc::Sender<Vec<u8>>,
}

impl Subscription {
    /// What the subscription's channel has accepted so far.
    pub open spec fn sent(&self) -> Seq<Seq<u8>> {
        accepted_messages(self.sender)
    }
}

/// What the dispatcher is told.
pub enum DispatchMessage {
    /// A fresh batch of quotes, at most one per ticker.
    Quotes(QuoteBook),
    /// A new subscription.
    Subscribe(Subscription),
}

/// The tickers of a subscription, as character sequences.
pub open spec fn ticker_views(tickers: Seq<&'static str>) -> Seq<Seq<char>> {
    tickers.map_values(|t: &'static str| t@)
}

/// The wire lines a subscriber to `tickers` gets from a batch: for each of its
/// tickers in order, the line of the batch's quote for it, when there is one
/// and its ticker is in the table.
pub open spec fn deliveries(tickers: Seq<Seq<char>>, book: QuoteBook) -> Seq<Seq<char>>
    decreases tickers.len(),
{
    if tickers.len() == 0 {
        Seq::empty()
    } else {
        let prev = deliveries(tickers.drop_last(), book);
        match book_quote(book, tickers.last()) {
            Some(q) => if valid_ticker(q.ticker@) {
                prev.push(q.wire())
            } else {
                prev
            },
            None => prev,
        }
    }
}

/// The batch has a quote for the ticker `t`, filed under a ticker of the table.
pub open spec fn has_quote(book: QuoteBook, t: Seq<char>) -> bool {
    book_quote(book, t) matches Some(q) && valid_ticker(q.ticker@)
}

/// The wire line of the batch's quote for the ticker `t`.
pub open spec fn quote_line(book: QuoteBook, t: Seq<char>) -> Seq<char> {
    book_quote(book, t)->Some_0.wire()
}

/// What a subscriber gets from a batch, however many tickers it has: the
/// subscribed tickers that have a quote in the batch, kept in the
/// subscription's order, each turned into the wire line of its quote. So there
/// is one line per subscribed ticker found in the batch, and every such
/// ticker's line is among them.
pub proof fn lemma_deliveries_are_found_tickers(tickers: Seq<Seq<char>>, book: QuoteBook)
    ensures
        deliveries(tickers, book) == tickers.filter(|t: Seq<char>| has_quote(book, t)).map_values(
            |t: Seq<char>| quote_line(book, t),
        ),
        deliveries(tickers, book).len() == tickers.filter(|t: Seq<char>| has_quote(book, t)).len(),
        forall|j: int|
            0 <= j < tickers.len() && has_quote(book, #[trigger] tickers[j]) ==> deliveries(
                tickers,
                book,
            ).contains(quote_line(book, tickers[j])),
    decreases tickers.len(),
{
    let pred = |t: Seq<char>| has_quote(book, t);
    let line = |t: Seq<char>| quote_line(book, t);
    reveal(Seq::filter);
    if tickers.len() == 0 {
        assert(tickers.filter(pred) =~= Seq::<Seq<char>>::empty());
        assert(tickers.filter(pred).map_values(line) =~= Seq::<Seq<char>>::empty());
    } else {
        let init = tickers.drop_last();
        lemma_deliveries_are_found_tickers(init, book);
        let f = init.filter(pred);
        if pred(tickers.last()) {
            assert(tickers.filter(pred) == f.push(tickers.last()));
            assert(f.push(tickers.last()).map_values(line) =~= f.map_values(line).push(line(tickers.last())));
        } else {
            assert(tickers.filter(pred) == f);
        }
    }
    let d = deliveries(tickers, book);
    let fl = tickers.filter(pred);
    assert forall|j: int|
        0 <= j < tickers.len() && has_quote(book, #[trigger] tickers[j]) implies d.contains(
            quote_line(book, tickers[j]),
        ) by {
        tickers.lemma_filter_contains(pred, j);
        let k = choose|k: int| 0 <= k < fl.len() && fl[k] == tickers[j];
        assert(d[k] == line(fl[k]));
    }
}

/// The bytes handed to a subscriber's channel for a batch: the UTF-8 form of
/// each of its lines, in order.
pub open spec fn delivery_bytes(tickers: Seq<Seq<char>>, book: QuoteBook) -> Seq<Seq<u8>> {
    deliveries(tickers, book).map_values(|line: Seq<char>| vstd::utf8::encode_utf8(line))
}

/// How a channel's record moves when it is handed `bytes` one by one, stopping
/// at the first refusal: all of them taken when `ok`, else a strict prefix.
pub open spec fn delivered(before: Seq<Seq<u8>>, after: Seq<Seq<u8>>, bytes: Seq<Seq<u8>>, ok: bool) -> bool {
    if ok {
        after == before + bytes
    } else {
        exists|n: int| 0 <= n < bytes.len() && after == before + #[trigger] bytes.take(n)
    }
}

/// The subscriptions whose flag in `alive` is set, in their order.
pub open spec fn keep_alive(subs: Seq<Subscription>, alive: Seq<bool>) -> Seq<Subscription>
    decreases subs.len(),
{
    if subs.len() == 0 || alive.len() == 0 {
        Seq::empty()
    } else if alive.last() {
        keep_alive(subs.drop_last(), alive.drop_last()).push(subs.last())
    } else {
        keep_alive(subs.drop_last(), alive.drop_last())
    }
}

/// The wire lines that a subscriber to `tickers` gets from the batch `book`.
pub fn subscription_lines(tickers: &Vec<&'static str>, book: &QuoteBook) -> (lines: Vec<String>)
    ensures
        lines@.len() == deliveries(ticker_views(tickers@), *book).len(),
        forall|k: int| 0 <= k < lines@.len() ==> #[trigger] lines@[k]@ == deliveries(ticker_views(tickers@), *book)[k],
{
    let mut lines: Vec<String> = Vec::new();
    let mut i: usize = 0;
    while i < tickers.len()
        invariant
            i <= tickers@.len(),
            lines@.len() == deliveries(ticker_views(tickers@.take(i as int)), *book).len(),
            forall|k: int| 0 <= k < lines@.len() ==> #[trigger] lines@[k]@ == deliveries(ticker_views(tickers@.take(i as int)), *book)[k],
        decreases tickers@.len() - i,
    {
        let ghost before = ticker_views(tickers@.take(i as int));
        let ghost after = ticker_views(tickers@.take(i + 1));
        assert(after.drop_last() =~= before);
        assert(after.last() == tickers@[i as int]@);
        match book.get(tickers[i]) {
            Some(q) => {
                match q.to_wire_line() {
                    Ok(line) => {
                        lines.push(line);
                    },
                    Err(_) => {
                    },
                }
            },
            None => {
            },
        }
        i = i + 1;
    }
    assert(tickers@.take(tickers@.len() as int) =~= tickers@);
    lines
}

/// Sends a subscription its lines from the batch, in order, and stops at the
/// first one its channel refuses. Returns whether every line was taken; the
/// channel has then accepted all of them, else exactly those before the
/// refused one.
pub fn deliver(subscription: &mut Subscription, book: &QuoteBook) -> (ok: bool)
    ensures
        final(subscription).tickers == old(subscription).tickers,
        delivered(
            old(subscription).sent(),
            final(subscription).sent(),
            delivery_bytes(ticker_views(old(subscription).tickers@), *book),
            ok,
        ),
{
    let lines = subscription_lines(&subscription.tickers, book);
    let ghost before = subscription.sent();
    let ghost bytes = delivery_bytes(ticker_views(subscription.tickers@), *book);
    let ghost tickers = subscription.tickers;
    let mut i: usize = 0;
    assert(bytes.take(0) =~= Seq::<Seq<u8>>::empty());
    assert(before + bytes.take(0) =~= before);
    while i < lines.len()
        invariant
            i <= lines@.len(),
            lines@.len() == bytes.len(),
            forall|k: int| 0 <= k < lines@.len() ==> vstd::utf8::encode_utf8(#[trigger] lines@[k]@) == bytes[k],
            subscription.tickers == tickers,
            tickers == old(subscription).tickers,
            before == old(subscription).sent(),
            bytes == delivery_bytes(ticker_views(old(subscription).tickers@), *book),
            subscription.sent() == before + bytes.take(i as int),
        decreases lines@.len() - i,
    {
        let data = lines[i].as_str().as_bytes_vec();
        assert(data@ == bytes[i as int]);
        if !send_bytes(&mut subscription.sender, data) {
            assert(delivered(before, subscription.sent(), bytes, false));
            return false;
        }
        assert(bytes.take(i + 1) =~= bytes.take(i as int).push(bytes[i as int]));
        assert(before + bytes.take(i + 1) =~= (before + bytes.take(i as int)).push(data@));
        i = i + 1;
    }
    assert(bytes.take(i as int) =~= bytes);
    true
}

/// The subscriptions whose flag in `alive` is set, in their order.
pub fn retain_alive(subs: Vec<Subscription>, alive: &Vec<bool>) -> (kept: Vec<Subscription>)
    requires
        subs@.len() == alive@.len(),
    ensures
        kept@ == keep_alive(subs@, alive@),
{
    let ghost all = subs@;
    let mut rest = subs;
    let n = rest.len();
    let mut kept: Vec<Subscription> = Vec::new();
    let mut i: usize = 0;
    assert(all.skip(0) =~= all);
    while rest.len() > 0
        invariant
            all.len() == alive@.len(),
            all.len() == n,
            i <= all.len(),
            rest@ == all.skip(i as int),
            kept@ == keep_alive(all.take(i as int), alive@.take(i as int)),
        decreases rest@.len(),
    {
        let s = rest.remove(0);
        assert(all.take(i + 1).drop_last() =~= all.take(i as int));
        assert(alive@.take(i + 1).drop_last() =~= alive@.take(i as int));
        assert(all.take(i + 1).last() == all[i as int]);
        assert(all.skip(i as int)[0] == all[i as int]);
        assert(rest@ =~= all.skip(i + 1));
        if alive[i] {
            kept.push(s);
        }
        i = i + 1;
    }
    assert(all.take(i as int) =~= all);
    assert(alive@.take(i as int) =~= alive@);
    kept
}

/// Each subscription of `before` went through one delivery of the batch:
/// `after` is it afterwards, `alive` tells whether its channel took every line.
pub open spec fn batch_delivered(
    before: Seq<Subscription>,
    after: Seq<Subscription>,
    alive: Seq<bool>,
    book: QuoteBook,
) -> bool {
    &&& after.len() == before.len()
    &&& alive.len() == before.len()
    &&& forall|k: int|
        0 <= k < before.len() ==> {
            &&& (#[trigger] after[k]).tickers == before[k].tickers
            &&& delivered(
                before[k].sent(),
                after[k].sent(),
                delivery_bytes(ticker_views(before[k].tickers@), book),
                alive[k],
            )
        }
}

/// What one message makes of the subscription list `before`: a subscription
/// is added at the end, and nothing is sent to it; a batch is handed to every
/// subscription in turn (see `batch_delivered`), and those whose channel
/// refused a line are dropped, the others kept in their order.
pub open spec fn handles(before: Seq<Subscription>, message: DispatchMessage, now: Seq<Subscription>) -> bool {
    match message {
        DispatchMessage::Subscribe(s) => now == before.push(s),
        DispatchMessage::Quotes(book) => exists|after: Seq<Subscription>, alive: Seq<bool>|
            {
                &&& #[trigger] batch_delivered(before, after, alive, book)
                &&& now == keep_alive(after, alive)
            },
    }
}

/// Applies one message to the subscription list. A subscription is added at
/// the end, and nothing is sent to it. A batch of quotes is handed to every
/// subscription in turn, each getting its lines in order up to the first one
/// its channel refuses; those whose channel refused a line are dropped, the
/// others kept in their order.
pub fn handle_message(subscriptions: &mut Vec<Subscription>, message: DispatchMessage)
    ensures
        handles(old(subscriptions)@, message, final(subscriptions)@),
{
    match message {
        DispatchMessage::Subscribe(s) => {
            subscriptions.push(s);
        },
        DispatchMessage::Quotes(book) => {
            let mut rest: Vec<Subscription> = Vec::new();
            std::mem::swap(&mut rest, subscriptions);
            let ghost all = rest@;
            let n = rest.len();
            let mut after: Vec<Subscription> = Vec::new();
            let mut alive: Vec<bool> = Vec::new();
            let mut i: usize = 0;
            assert(all.skip(0) =~= all);
            while rest.len() > 0
                invariant
                    all.len() == n,
                    i <= n,
                    rest@ == all.skip(i as int),
                    after@.len() == i,
                    alive@.len() == i,
                    forall|k: int|
                        0 <= k < i ==> {
                            &&& (#[trigger] after@[k]).tickers == all[k].tickers
                            &&& delivered(
                                all[k].sent(),
                                after@[k].sent(),
                                delivery_bytes(ticker_views(all[k].tickers@), book),
                                alive@[k],
                            )
                        },
                decreases rest@.len(),
            {
                let mut s = rest.remove(0);
                assert(all.skip(i as int)[0] == all[i as int]);
                assert(rest@ =~= all.skip(i + 1));
                let ok = deliver(&mut s, &book);
                after.push(s);
                alive.push(ok);
                i = i + 1;
            }
            assert(batch_delivered(all, after@, alive@, book));
            let kept = retain_alive(after, &alive);
            *subscriptions = kept;
        },
    }
}

/// `line` is the wire line of the batch's quote for the subscribed ticker
/// `tickers[j]`, which is in the table.
pub open spec fn delivered_from(tickers: Seq<Seq<char>>, book: QuoteBook, line: Seq<char>, j: int) -> bool {
    &&& 0 <= j < tickers.len()
    &&& valid_ticker(tickers[j])
    &&& match book_quote(book, tickers[j]) {
        Some(q) => q.ticker@ == tickers[j] && line == q.wire(),
        None => false,
    }
}

/// Every line a subscriber gets is the wire line of the batch's quote for one
/// of its tickers, and that ticker is in the table.
pub proof fn lemma_deliveries_are_subscribed(tickers: Seq<Seq<char>>, book: QuoteBook, k: int)
    requires
        book.wf(),
        0 <= k < deliveries(tickers, book).len(),
    ensures
        exists|j: int| #[trigger] delivered_from(tickers, book, deliveries(tickers, book)[k], j),
    decreases tickers.len(),
{
    let init = tickers.drop_last();
    let prev = deliveries(init, book);
    let j = tickers.len() - 1;
    assert(tickers[j] == tickers.last());
    lemma_table_index(tickers.last());
    if let Some(i) = table_index(tickers.last()) {
        book.lemma_entry_ticker(i as int);
    }
    if k < prev.len() {
        lemma_deliveries_are_subscribed(init, book, k);
        let i = choose|i: int| #[trigger] delivered_from(init, book, prev[k], i);
        assert(init[i] == tickers[i]);
        assert(deliveries(tickers, book)[k] == prev[k]);
        assert(delivered_from(tickers, book, deliveries(tickers, book)[k], i));
    } else {
        assert(delivered_from(tickers, book, deliveries(tickers, book)[k], j));
    }
}

/// A subscription with nothing to receive from a batch is kept by it.
pub proof fn lemma_nothing_to_send_keeps(before: Seq<Seq<u8>>, after: Seq<Seq<u8>>, bytes: Seq<Seq<u8>>, ok: bool)
    requires
        bytes.len() == 0,
        delivered(before, after, bytes, ok),
    ensures
        ok,
        after == before,
{
    if ok {
        assert(before + bytes =~= before);
    }
}

/// Every subscription that a batch keeps is one whose channel took all its
/// lines.
pub proof fn lemma_keep_alive_origin(subs: Seq<Subscription>, alive: Seq<bool>, k: int)
    requires
        subs.len() == alive.len(),
        0 <= k < keep_alive(subs, alive).len(),
    ensures
        exists|j: int| 0 <= j < subs.len() && alive[j] && keep_alive(subs, alive)[k] == #[trigger] subs[j],
    decreases subs.len(),
{
    let init = subs.drop_last();
    let flags = alive.drop_last();
    let prev = keep_alive(init, flags);
    if alive.last() && k == prev.len() {
        assert(subs[subs.len() - 1] == subs.last());
        assert(alive[alive.len() - 1] == alive.last());
    } else {
        lemma_keep_alive_origin(init, flags, k);
        let j = choose|j: int| 0 <= j < init.len() && flags[j] && prev[k] == #[trigger] init[j];
        assert(subs[j] == init[j]);
        assert(alive[j] == flags[j]);
    }
}

/// The batches among `msgs`, in order.
pub open spec fn batches(msgs: Seq<DispatchMessage>) -> Seq<QuoteBook>
    decreases msgs.len(),
{
    if msgs.len() == 0 {
        Seq::empty()
    } else {
        match msgs.last() {
            DispatchMessage::Quotes(book) => batches(msgs.drop_last()).push(book),
            DispatchMessage::Subscribe(_) => batches(msgs.drop_last()),
        }
    }
}

/// The bytes a subscriber to `tickers` gets from the batches `books`, one
/// batch after the other.
pub open spec fn all_bytes(tickers: Seq<Seq<char>>, books: Seq<QuoteBook>) -> Seq<Seq<u8>>
    decreases books.len(),
{
    if books.len() == 0 {
        Seq::empty()
    } else {
        all_bytes(tickers, books.drop_last()) + delivery_bytes(tickers, books.last())
    }
}

/// A run of the dispatcher from an empty list: message `msgs[j]` makes
/// `states[j + 1]` of `states[j]`.
pub open spec fn dispatch_run(states: Seq<Seq<Subscription>>, msgs: Seq<DispatchMessage>) -> bool {
    &&& states.len() == msgs.len() + 1
    &&& states[0].len() == 0
    &&& forall|j: int| 0 <= j < msgs.len() ==> handles(states[j], #[trigger] msgs[j], states[j + 1])
}

/// `x` is the subscription that message `i` of `msgs` added, after the
/// messages up to `n`: same tickers, and its channel has taken, beyond what it
/// held when it came in, exactly the lines of its tickers from each batch
/// after message `i`, batch after batch and in order within each.
pub open spec fn fed_since(msgs: Seq<DispatchMessage>, i: int, n: int, x: Subscription) -> bool {
    &&& 0 <= i < n
    &&& match msgs[i] {
        DispatchMessage::Subscribe(s) => {
            &&& x.tickers == s.tickers
            &&& x.sent() == s.sent() + all_bytes(ticker_views(s.tickers@), batches(msgs.subrange(i + 1, n)))
        },
        DispatchMessage::Quotes(_) => false,
    }
}

/// `x` is a subscription that some message of `msgs` added and that has been
/// fed since, after the messages up to `n` (see `fed_since`).
pub open spec fn fed(msgs: Seq<DispatchMessage>, n: int, x: Subscription) -> bool {
    exists|i: int| #[trigger] fed_since(msgs, i, n, x)
}

/// One step of a run: if every subscription held after message `n - 1`
/// satisfies `fed_since` up to `n - 1`, the one at position `k` after message
/// `n` satisfies it up to `n`.
proof fn lemma_dispatch_step(states: Seq<Seq<Subscription>>, msgs: Seq<DispatchMessage>, n: int, k: int)
    requires
        dispatch_run(states, msgs),
        0 < n <= msgs.len(),
        forall|k: int| 0 <= k < states[n - 1].len() ==> #[trigger] fed(msgs, n - 1, states[n - 1][k]),
        0 <= k < states[n].len(),
    ensures
        fed(msgs, n, states[n][k]),
{
    let m = n - 1;
    let before = states[m];
    let now = states[n];
    assert(handles(before, msgs[m], now));
    match msgs[m] {
        DispatchMessage::Subscribe(s) => {
            if k < before.len() {
                assert(fed(msgs, m, before[k]));
                let i = choose|i: int| #[trigger] fed_since(msgs, i, m, before[k]);
                assert(now[k] == before[k]);
                assert(msgs.subrange(i + 1, n).drop_last() =~= msgs.subrange(i + 1, m));
                assert(msgs.subrange(i + 1, n).last() == msgs[m]);
                assert(batches(msgs.subrange(i + 1, n)) == batches(msgs.subrange(i + 1, m)));
                assert(fed_since(msgs, i, n, now[k]));
            } else {
                assert(now[k] == s);
                assert(msgs.subrange(m + 1, n) =~= Seq::<DispatchMessage>::empty());
                assert(all_bytes(ticker_views(s.tickers@), batches(msgs.subrange(m + 1, n)))
                    =~= Seq::<Seq<u8>>::empty());
                assert(s.sent() + Seq::<Seq<u8>>::empty() =~= s.sent());
                assert(fed_since(msgs, m, n, now[k]));
            }
        },
        DispatchMessage::Quotes(book) => {
            let (after, alive) = choose|after: Seq<Subscription>, alive: Seq<bool>|
                #[trigger] batch_delivered(before, after, alive, book) && now == keep_alive(after, alive);
            lemma_keep_alive_origin(after, alive, k);
            let j = choose|j: int| 0 <= j < after.len() && alive[j] && now[k] == #[trigger] after[j];
            assert(after[j].tickers == before[j].tickers);
            let bytes = delivery_bytes(ticker_views(before[j].tickers@), book);
            assert(delivered(before[j].sent(), after[j].sent(), bytes, alive[j]));
            assert(after[j].sent() == before[j].sent() + bytes);
            assert(fed(msgs, m, before[j]));
            let i = choose|i: int| #[trigger] fed_since(msgs, i, m, before[j]);
            assert(msgs.subrange(i + 1, n).drop_last() =~= msgs.subrange(i + 1, m));
            assert(msgs.subrange(i + 1, n).last() == msgs[m]);
            let earlier = batches(msgs.subrange(i + 1, m));
            assert(batches(msgs.subrange(i + 1, n)) == earlier.push(book));
            if let DispatchMessage::Subscribe(s) = msgs[i] {
                let tv = ticker_views(s.tickers@);
                assert(earlier.push(book).drop_last() =~= earlier);
                assert(all_bytes(tv, earlier.push(book)) == all_bytes(tv, earlier) + delivery_bytes(tv, book));
                assert(s.sent() + all_bytes(tv, earlier) + bytes =~= s.sent() + (all_bytes(tv, earlier)
                    + bytes));
            }
            assert(fed_since(msgs, i, n, now[k]));
        },
    }
}

/// Over a run from an empty list, every subscription still held came in by a
/// message and has been handed exactly the lines of its tickers from the
/// batches after it, and nothing from the batches before it. Since a
/// subscription whose channel refused a line is dropped and never comes back,
/// every subscription still held had every line taken.
pub proof fn lemma_dispatch_run(states: Seq<Seq<Subscription>>, msgs: Seq<DispatchMessage>, n: int)
    requires
        dispatch_run(states, msgs),
        0 <= n <= msgs.len(),
    ensures
        forall|k: int| 0 <= k < states[n].len() ==> #[trigger] fed(msgs, n, states[n][k]),
    decreases n,
{
    if n > 0 {
        lemma_dispatch_run(states, msgs, n - 1);
        assert forall|k: int| 0 <= k < states[n].len() implies #[trigger] fed(msgs, n, states[n][k]) by {
            lemma_dispatch_step(states, msgs, n, k);
        }
    } else {
        assert(states[n].len() == 0);
    }
}

} // verus!
