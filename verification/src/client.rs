//! The client's side of the protocol: its settings and the request it sends.
use vstd::prelude::*;

use crate::network::{
    command_parts, first_unknown_at, is_stream_command, names, reads_as, ticker_pieces, StreamCommand,
    TickerSelection,
};
use crate::text::{
    is_whitespace, join, lemma_first_index, lemma_join_ends, lemma_join_remove_spaces,
    lemma_join_split, lemma_remove_spaces_concat, lemma_trim_none, lemma_trim_tail, remove_spaces,
};
use crate::ticker::{is_symbol, lemma_valid_ticker_is_symbol, lookup_ticker, valid_ticker};

verus! {

/// Seconds between two pings, unless the command line says otherwise.
pub const DEFAULT_PING_TIMEOUT_SECS: u64 = 5;

/// The client's settings.
pub struct Args {
    /// Address of the server.
    pub server: String,
    /// UDP address on which quotes are received.
    pub udp: String,
    /// Seconds between two pings.
    pub timeout: u64,
    /// File with one ticker per line.
    pub tickers: String,
}

/// The request `STREAM <udp> <T1>, <T2>, ...` followed by a line break.
pub open spec fn request_line(udp: Seq<char>, tickers: Seq<Seq<char>>) -> Seq<char> {
    "STREAM"@ + seq![' '] + udp + seq![' '] + join(tickers, seq![',', ' ']) + seq!['\n']
}

/// The request that asks the server for the quotes of `tickers` on `udp`.
pub fn stream_request(udp: &str, tickers: &Vec<&'static str>) -> (r: String)
    ensures
        r@ == request_line(udp@, names(tickers@)),
{
    proof {
        reveal_strlit(" ");
        reveal_strlit(", ");
        reveal_strlit("\n");
    }
    let mut r = String::from_str("STREAM");
    r.append(" ");
    r.append(udp);
    r.append(" ");
    let ghost head = r@;
    let mut i: usize = 0;
    while i < tickers.len()
        invariant
            i <= tickers@.len(),
            r@ == head + join(names(tickers@.take(i as int)), seq![',', ' ']),
        decreases tickers@.len() - i,
    {
        let ghost before = names(tickers@.take(i as int));
        let ghost after = names(tickers@.take(i + 1));
        assert(after.drop_last() =~= before);
        assert(after.last() == tickers@[i as int]@);
        if i > 0 {
            proof {
                reveal_strlit(", ");
            }
            r.append(", ");
            r.append(tickers[i]);
            assert(r@ =~= head + (join(before, seq![',', ' ']) + seq![',', ' '] + tickers@[i as int]@));
        } else {
            assert(before.len() == 0);
            r.append(tickers[i]);
            assert(r@ =~= head + after[0]);
        }
        i = i + 1;
    }
    assert(tickers@.take(tickers@.len() as int) =~= tickers@);
    proof {
        reveal_strlit("\n");
    }
    r.append("\n");
    r
}

/// Whether the server's answer accepts the request.
pub fn accepted(response: &str) -> (b: bool)
    ensures
        b == (response@ == "OK\n"@),
{
    crate::text::str_equal(response, "OK\n")
}

/// The characters of each line.
pub open spec fn line_views(lines: Seq<String>) -> Seq<Seq<char>> {
    lines.map_values(|l: String| l@)
}

/// The tickers of a ticker file, one per line: the table's tickers when every
/// line names one, else the first line that does not.
pub fn file_tickers(lines: &Vec<String>) -> (r: Result<Vec<&'static str>, String>)
    ensures
        match r {
            Ok(list) => {
                &&& forall|j: int| 0 <= j < lines@.len() ==> valid_ticker(#[trigger] lines@[j]@)
                &&& names(list@) == line_views(lines@)
            },
            Err(t) => exists|k: int|
                #[trigger] first_unknown_at(line_views(lines@), k) && t@ == lines@[k]@,
        },
{
    let ghost views = line_views(lines@);
    let mut list: Vec<&'static str> = Vec::new();
    let mut i: usize = 0;
    while i < lines.len()
        invariant
            views == line_views(lines@),
            i <= lines@.len(),
            list@.len() == i,
            forall|j: int| 0 <= j < i ==> valid_ticker(#[trigger] lines@[j]@),
            forall|j: int| 0 <= j < i ==> #[trigger] list@[j]@ == lines@[j]@,
        decreases lines@.len() - i,
    {
        match lookup_ticker(lines[i].as_str()) {
            Some(t) => {
                list.push(t);
            },
            None => {
                let wrong = lines[i].clone();
                assert(views[i as int] == lines@[i as int]@);
                assert(forall|j: int| 0 <= j < i ==> valid_ticker(#[trigger] views[j])) by {
                    assert forall|j: int| 0 <= j < i implies valid_ticker(#[trigger] views[j]) by {
                        assert(views[j] == lines@[j]@);
                    }
                }
                assert(first_unknown_at(views, i as int));
                return Err(wrong);
            },
        }
        i = i + 1;
    }
    assert(names(list@) =~= views);
    Ok(list)
}

/// The server reads the client's request for table tickers, on an address free
/// of white space, as a `STREAM` command for that address and exactly those
/// tickers, in order.
pub proof fn lemma_request_understood(udp: Seq<char>, tickers: Seq<&'static str>)
    requires
        forall|k: int| 0 <= k < udp.len() ==> !is_whitespace(#[trigger] udp[k]),
        tickers.len() >= 1,
        forall|k: int| 0 <= k < tickers.len() ==> valid_ticker(#[trigger] tickers[k]@),
    ensures
        forall|r: StreamCommand|
            reads_as(request_line(udp, names(tickers)), r) ==> (r matches StreamCommand::Stream {
                udp_addr,
                tickers: TickerSelection::Known(list),
            } && udp_addr@ == udp && names(list@) == names(tickers)),
{
    reveal_strlit("STREAM");
    let ns = names(tickers);
    assert forall|k: int| 0 <= k < ns.len() implies is_symbol(#[trigger] ns[k]) by {
        lemma_valid_ticker_is_symbol(tickers[k]@);
    }
    assert forall|k: int| 0 <= k < ns.len() implies (#[trigger] ns[k]).len() > 0
        && !ns[k].contains(' ') && !ns[k].contains(',') by {
        assert(is_symbol(ns[k]));
        if ns[k].contains(' ') || ns[k].contains(',') {
            let j = choose|j: int| 0 <= j < ns[k].len() && (ns[k][j] == ' ' || ns[k][j] == ',');
            assert('A' <= ns[k][j] <= 'Z');
        }
    }
    let joined = join(ns, seq![',', ' ']);
    let req = request_line(udp, ns);
    let stream = "STREAM"@;
    assert(stream.len() == 6);
    // The first space follows the word STREAM.
    lemma_first_index(req, ' ', 6);
    let rest = req.skip(7);
    assert(rest =~= udp + seq![' '] + joined + seq!['\n']);
    assert(forall|j: int| 0 <= j < udp.len() ==> rest[j] != ' ') by {
        assert forall|j: int| 0 <= j < udp.len() implies rest[j] != ' ' by {
            assert(rest[j] == udp[j]);
            assert(!is_whitespace(udp[j]));
        }
    }
    lemma_first_index(rest, ' ', udp.len() as int);
    let tail = rest.skip(udp.len() as int + 1);
    assert(tail =~= joined + seq!['\n']);
    assert(req.take(6) =~= stream);
    assert(rest.take(udp.len() as int) =~= udp);
    let parts = command_parts(req);
    assert(parts == seq![stream, udp, tail]);
    assert(is_stream_command(req));
    lemma_trim_none(udp);
    // The tickers part, cleaned, is the tickers joined by commas.
    lemma_join_remove_spaces(ns);
    lemma_remove_spaces_concat(joined, seq!['\n']);
    assert(remove_spaces(seq!['\n']) == seq!['\n']) by {
        assert(seq!['\n'].drop_last() =~= Seq::<char>::empty());
        assert(remove_spaces(Seq::<char>::empty()) == Seq::<char>::empty());
        assert(seq!['\n'].last() == '\n');
        assert(Seq::<char>::empty().push('\n') =~= seq!['\n']);
    }
    let commas = join(ns, seq![',']);
    lemma_join_ends(ns, seq![',']);
    assert(is_symbol(ns[0]));
    assert(is_symbol(ns[ns.len() - 1]));
    assert(ns.last() == ns[ns.len() - 1]);
    assert(ns[0][0] == commas[0]);
    assert(!is_whitespace(commas[0]));
    assert(ns.last()[ns.last().len() - 1] == ns.last().last());
    assert(!is_whitespace(commas.last()));
    lemma_trim_tail(commas, seq!['\n']);
    lemma_join_split(ns, ',');
    assert(ticker_pieces(tail) == ns);
    assert forall|r: StreamCommand|
        reads_as(req, r) implies (r matches StreamCommand::Stream {
            udp_addr,
            tickers: TickerSelection::Known(list),
        } && udp_addr@ == udp && names(list@) == ns) by {
        match r {
            StreamCommand::Invalid => {
            },
            StreamCommand::Stream { udp_addr, tickers: sel } => {
                match sel {
                    TickerSelection::Unknown(t) => {
                        let k = choose|k: int|
                            #[trigger] crate::network::first_unknown_at(ticker_pieces(tail), k)
                                && t@ == ticker_pieces(tail)[k];
                        assert(valid_ticker(ns[k]));
                    },
                    _ => {
                    },
                }
            },
        }
    }
}

} // verus!
