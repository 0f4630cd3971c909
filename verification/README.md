# stock_stream

A stock quote service: a server that generates quotes for a fixed table of
tickers and streams them over UDP to clients that subscribed over TCP, and the
client that subscribes and prints them.

`src/` is the verified library:

- `text`: splitting, trimming, decimal numbers, with their specifications;
- `ticker`: the table of tickers and lookups in it;
- `quote`: quotes and their wire line `TICKER|PRICE|VOLUME|TIMESTAMP`;
- `dispatch`: routing quote batches to subscriptions;
- `generator`: the per-ticker quote state and its refresh;
- `network`: reading `STREAM` commands, the answers, pings;
- `client`, `server`: settings, the client's request, the server's errors.

`app/` holds the program around it: command line, threads, sockets, and the
`f64` side of prices (parsing, the random walk), which the library carries as
wire text.
