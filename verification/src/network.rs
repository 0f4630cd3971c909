//! The server's side of the TCP protocol: reading `STREAM` commands, the
//! answers to them, and the ping that keeps a UDP stream alive.
use vstd::prelude::*;

use crate::text::{
    remove_spaces, remove_spaces_str, split_on, split_str, splitn3, splitn3_str, str_equal, trim,
    trim_str,
};
use crate::ticker::{lookup_ticker, valid_ticker};

verus! {

/// Why the listener stopped.
#[derive(Debug, Clone, Copy, PartialEq, Eq)]
pub enum NetworkError {
    ListenError,
    SetNonblocking,
    AcceptError,
    SetTimeout,
    CommandReceive,
}

/// The message of each network error: its name.
pub open spec fn network_error_text(e: NetworkError) -> Seq<char> {
    match e {
        NetworkError::ListenError => "ListenError"@,
        NetworkError::SetNonblocking => "SetNonblocking"@,
        NetworkError::AcceptError => "AcceptError"@,
        NetworkError::SetTimeout => "SetTimeout"@,
        NetworkError::CommandReceive => "CommandReceive"@,
    }
}

impl NetworkError {
    /// The message of this error.
    pub fn message(&self) -> (s: &'static str)
        ensures
            s@ == network_error_text(*self),
    {
        match self {
            NetworkError::ListenError => "ListenError",
            NetworkError::SetNonblocking => "SetNonblocking",
            NetworkError::AcceptError => "AcceptError",
            NetworkError::SetTimeout => "SetTimeout",
            NetworkError::CommandReceive => "CommandReceive",
        }
    }
}

/// The tickers part of a `STREAM` command.
pub enum TickerSelection {
    /// The command ends after the address.
    Missing,
    /// The first name that is not a ticker of the table.
    Unknown(String),
    /// The table's tickers, in the order the command names them.
    Known(Vec<&'static str>),
}

/// A command line as the server reads it.
pub enum StreamCommand {
    /// Not of the form `STREAM <address> ...`.
    Invalid,
    /// A request to stream quotes to a UDP address.
    Stream { udp_addr: String, tickers: TickerSelection },
}

/// The command split at its first two spaces.
pub open spec fn command_parts(command: Seq<char>) -> Seq<Seq<char>> {
    splitn3(command, ' ')
}

/// `command` starts with the word `STREAM` and a space.
pub open spec fn is_stream_command(command: Seq<char>) -> bool {
    command_parts(command).len() >= 2 && command_parts(command)[0] == "STREAM"@
}

/// The names in the tickers part of a command: all spaces removed, white
/// space trimmed, split at commas.
pub open spec fn ticker_pieces(raw: Seq<char>) -> Seq<Seq<char>> {
    split_on(trim(remove_spaces(raw)), ',')
}

/// The views of a list of tickers.
pub open spec fn names(tickers: Seq<&'static str>) -> Seq<Seq<char>> {
    tickers.map_values(|t: &'static str| t@)
}

/// `pieces[k]` is the first of the pieces that is not a ticker of the table.
pub open spec fn first_unknown_at(pieces: Seq<Seq<char>>, k: int) -> bool {
    &&& 0 <= k < pieces.len()
    &&& !valid_ticker(pieces[k])
    &&& forall|j: int| 0 <= j < k ==> valid_ticker(#[trigger] pieces[j])
}

/// What `selection` holds for the tickers part `raw`: the table's tickers when
/// every name is one, else the first name that is not.
pub open spec fn selects(selection: TickerSelection, raw: Seq<char>) -> bool {
    let pieces = ticker_pieces(raw);
    match selection {
        TickerSelection::Missing => false,
        TickerSelection::Unknown(t) => exists|k: int| #[trigger] first_unknown_at(pieces, k) && t@ == pieces[k],
        TickerSelection::Known(list) => {
            &&& forall|j: int| 0 <= j < pieces.len() ==> valid_ticker(#[trigger] pieces[j])
            &&& names(list@) == pieces
        },
    }
}

/// What reading `command` gives: `Invalid` unless it is a `STREAM` command;
/// otherwise the trimmed address, and the tickers part when there is one.
pub open spec fn reads_as(command: Seq<char>, r: StreamCommand) -> bool {
    let parts = command_parts(command);
    match r {
        StreamCommand::Invalid => !is_stream_command(command),
        StreamCommand::Stream { udp_addr, tickers } => {
            &&& is_stream_command(command)
            &&& udp_addr@ == trim(parts[1])
            &&& if parts.len() == 2 {
                tickers is Missing
            } else {
                selects(tickers, parts[2])
            }
        },
    }
}

/// Reads the tickers part of a command.
pub fn select_tickers(raw: &str) -> (selection: TickerSelection)
    ensures
        selects(selection, raw@),
{
    let cleaned = remove_spaces_str(raw);
    let trimmed = trim_str(cleaned.as_str());
    let pieces = split_str(trimmed, ',');
    let ghost expected = ticker_pieces(raw@);
    let mut list: Vec<&'static str> = Vec::new();
    let mut i: usize = 0;
    while i < pieces.len()
        invariant
            expected == ticker_pieces(raw@),
            pieces@.len() == expected.len(),
            forall|k: int| 0 <= k < pieces@.len() ==> #[trigger] pieces@[k]@ == expected[k],
            i <= pieces@.len(),
            list@.len() == i,
            forall|j: int| 0 <= j < i ==> valid_ticker(#[trigger] expected[j]),
            forall|j: int| 0 <= j < i ==> #[trigger] list@[j]@ == expected[j],
        decreases pieces@.len() - i,
    {
        match lookup_ticker(pieces[i]) {
            Some(t) => {
                list.push(t);
            },
            None => {
                let unknown = String::from_str(pieces[i]);
                assert(!valid_ticker(expected[i as int]));
                assert(unknown@ == expected[i as int]);
                assert(first_unknown_at(expected, i as int));
                return TickerSelection::Unknown(unknown);
            },
        }
        i = i + 1;
    }
    assert(names(list@) =~= expected);
    TickerSelection::Known(list)
}

/// Reads one command line.
pub fn parse_stream_command(command: &str) -> (r: StreamCommand)
    ensures
        reads_as(command@, r),
{
    let parts = splitn3_str(command, ' ');
    if parts.len() < 2 || !str_equal(parts[0], "STREAM") {
        return StreamCommand::Invalid;
    }
    let udp_addr = String::from_str(trim_str(parts[1]));
    if parts.len() == 2 {
        return StreamCommand::Stream { udp_addr, tickers: TickerSelection::Missing };
    }
    let tickers = select_tickers(parts[2]);
    StreamCommand::Stream { udp_addr, tickers }
}

/// The answers the server gives to a command.
pub enum CommandResponse {
    Accepted,
    InvalidCommand,
    InvalidUdpAddress,
    EmptyTickerList,
    UnknownTicker(String),
}

/// The line sent back for each answer.
pub open spec fn response_text(r: CommandResponse) -> Seq<char> {
    match r {
        CommandResponse::Accepted => "OK\n"@,
        CommandResponse::InvalidCommand => "ERR invalid command\n"@,
        CommandResponse::InvalidUdpAddress => "ERR invalid udp address\n"@,
        CommandResponse::EmptyTickerList => "ERR empty ticker list\n"@,
        CommandResponse::UnknownTicker(t) => "ERR unknown ticker "@ + t@ + "\n"@,
    }
}

impl CommandResponse {
    /// The line sent back for this answer.
    pub fn response_line(&self) -> (s: String)
        ensures
            s@ == response_text(*self),
    {
        match self {
            CommandResponse::Accepted => String::from_str("OK\n"),
            CommandResponse::InvalidCommand => String::from_str("ERR invalid command\n"),
            CommandResponse::InvalidUdpAddress => String::from_str("ERR invalid udp address\n"),
            CommandResponse::EmptyTickerList => String::from_str("ERR empty ticker list\n"),
            CommandResponse::UnknownTicker(t) => {
                let mut s = String::from_str("ERR unknown ticker ");
                s.append(t.as_str());
                s.append("\n");
                s
            },
        }
    }
}

/// The answer to a command, once the server has tried to connect a UDP socket
/// to its address (`udp_connected` tells how that went): the command's form
/// is judged first, then the address, then the tickers.
pub open spec fn outcome(command: StreamCommand, udp_connected: bool) -> CommandResponse {
    match command {
        StreamCommand::Invalid => CommandResponse::InvalidCommand,
        StreamCommand::Stream { udp_addr, tickers } => if !udp_connected {
            CommandResponse::InvalidUdpAddress
        } else {
            match tickers {
                TickerSelection::Missing => CommandResponse::EmptyTickerList,
                TickerSelection::Unknown(t) => CommandResponse::UnknownTicker(t),
                TickerSelection::Known(_) => CommandResponse::Accepted,
            }
        },
    }
}

/// How the answer depends on the command and on the UDP connection: a line
/// that is not a `STREAM` command is an invalid command whatever the
/// connection; a `STREAM` command whose address could not be connected is
/// refused for its address, whatever its tickers part holds; and a command is
/// accepted exactly when it is a `STREAM` command, its address was connected,
/// and every name in its tickers part is a ticker of the table.
pub proof fn lemma_outcome_order(text: Seq<char>, command: StreamCommand, udp_connected: bool)
    requires
        reads_as(text, command),
    ensures
        !is_stream_command(text) ==> outcome(command, udp_connected) == CommandResponse::InvalidCommand,
        is_stream_command(text) && !udp_connected ==> outcome(command, udp_connected)
            == CommandResponse::InvalidUdpAddress,
        (outcome(command, udp_connected) == CommandResponse::Accepted) <==> (is_stream_command(text)
            && udp_connected && command_parts(text).len() == 3 && forall|j: int|
            0 <= j < ticker_pieces(command_parts(text)[2]).len() ==> valid_ticker(
                #[trigger] ticker_pieces(command_parts(text)[2])[j],
            )),
        is_stream_command(text) && udp_connected && command_parts(text).len() == 2 ==> outcome(
            command,
            udp_connected,
        ) == CommandResponse::EmptyTickerList,
        is_stream_command(text) && udp_connected && command_parts(text).len() == 3 ==> forall|k: int|
            #[trigger] first_unknown_at(ticker_pieces(command_parts(text)[2]), k) ==> (outcome(
                command,
                udp_connected,
            ) matches CommandResponse::UnknownTicker(t) && t@ == ticker_pieces(command_parts(text)[2])[k]),
{
    let parts = command_parts(text);
    if let StreamCommand::Stream { udp_addr, tickers } = command {
        assert(parts.len() <= 3);
        if parts.len() == 3 {
            let pieces = ticker_pieces(parts[2]);
            match tickers {
                TickerSelection::Unknown(t) => {
                    let k = choose|k: int| #[trigger] first_unknown_at(pieces, k) && t@ == pieces[k];
                    assert(!valid_ticker(pieces[k]));
                    assert forall|k2: int| #[trigger] first_unknown_at(pieces, k2) implies k2 == k by {
                        if k2 < k {
                            assert(valid_ticker(pieces[k2]));
                        } else if k < k2 {
                            assert(valid_ticker(pieces[k]));
                        }
                    }
                },
                _ => {},
            }
        }
    }
}

/// The answer to a command, given how connecting the UDP socket went.
pub fn command_outcome(command: &StreamCommand, udp_connected: bool) -> (r: CommandResponse)
    ensures
        match (r, outcome(*command, udp_connected)) {
            (CommandResponse::UnknownTicker(a), CommandResponse::UnknownTicker(b)) => a@ == b@,
            (x, y) => x == y,
        },
        command is Stream && !udp_connected ==> r is InvalidUdpAddress,
        command is Invalid ==> r is InvalidCommand,
        r is Accepted <==> (udp_connected && (command matches StreamCommand::Stream { tickers, .. } && tickers is Known)),
{
    match command {
        StreamCommand::Invalid => CommandResponse::InvalidCommand,
        StreamCommand::Stream { udp_addr: _, tickers } => {
            if !udp_connected {
                CommandResponse::InvalidUdpAddress
            } else {
                match tickers {
                    TickerSelection::Missing => CommandResponse::EmptyTickerList,
                    TickerSelection::Unknown(t) => CommandResponse::UnknownTicker(t.clone()),
                    TickerSelection::Known(_) => CommandResponse::Accepted,
                }
            }
        },
    }
}

/// The ASCII lower-case form of a byte.
pub open spec fn ascii_lower(b: u8) -> u8 {
    if 65 <= b <= 90 {
        (b + 32) as u8
    } else {
        b
    }
}

/// The first `n` bytes of `buf` spell `PING`, in any mix of cases.
pub open spec fn is_ping_message(buf: Seq<u8>, n: int) -> bool {
    &&& n == 4
    &&& ascii_lower(buf[0]) == 112
    &&& ascii_lower(buf[1]) == 105
    &&& ascii_lower(buf[2]) == 110
    &&& ascii_lower(buf[3]) == 103
}

/// The ASCII lower-case form of a byte.
fn lower(b: u8) -> (l: u8)
    ensures
        l == ascii_lower(b),
{
    if 65 <= b && b <= 90 {
        b + 32
    } else {
        b
    }
}

/// Whether the `n` bytes received into `buf` are a ping.
pub fn is_ping(buf: &[u8], n: usize) -> (b: bool)
    requires
        n == 4 ==> buf@.len() >= 4,
    ensures
        b == is_ping_message(buf@, n as int),
{
    n == 4 && lower(buf[0]) == 112 && lower(buf[1]) == 105 && lower(buf[2]) == 110 && lower(buf[3])
        == 103
}

/// Time passed from `from` to `to` on a monotonic clock, zero when `to` is
/// not later (as subtracting two `Instant`s gives it).
pub open spec fn elapsed(from: u128, to: u128) -> int {
    if to >= from {
        to - from
    } else {
        0
    }
}

/// When a UDP stream last heard a ping, in nanoseconds of the stream's clock.
pub struct PingClock {
    pub last_ping_ns: u128,
}

impl PingClock {
    /// A stream that starts at `now_ns` counts as just pinged.
    pub fn new(now_ns: u128) -> (c: PingClock)
        ensures
            c.last_ping_ns == now_ns,
    {
        PingClock { last_ping_ns: now_ns }
    }

    /// Takes note of the `n` bytes received into `buf` at `now_ns`: a ping
    /// resets the clock, anything else leaves it.
    pub fn on_datagram(&mut self, now_ns: u128, buf: &[u8], n: usize)
        requires
            n == 4 ==> buf@.len() >= 4,
        ensures
            final(self).last_ping_ns == if is_ping_message(buf@, n as int) {
                now_ns
            } else {
                old(self).last_ping_ns
            },
    {
        if is_ping(buf, n) {
            self.last_ping_ns = now_ns;
        }
    }

    /// Whether, at `now_ns`, more than `timeout_ns` have passed since the last
    /// ping, so that streaming stops.
    pub fn expired(&self, now_ns: u128, timeout_ns: u128) -> (b: bool)
        ensures
            b == (elapsed(self.last_ping_ns, now_ns) > timeout_ns),
    {
        if now_ns >= self.last_ping_ns {
            now_ns - self.last_ping_ns > timeout_ns
        } else {
            false
        }
    }
}

} // verus!
