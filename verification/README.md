# vsBTC

A real-time screener that shows how every Hyperliquid coin, perpetual contract or
spot market, does against BTC: returns less those of BTC, volatility, correlation and beta across
timeframes from five minutes to thirty days, beside live prices and market data.

The decisions of the program are a library whose behaviour is stated in contracts
and proved by Verus. What remains around it is ordinary Rust.

- `src/feeds` — timeframes, candles and coins; requests to the exchange, how its
  replies and live messages are read, and how the live connection is kept up.
- `src/pipeline.rs` — which candles are loaded, in what order, how fast, and what
  the screen is told meanwhile.
- `src/store` — rows of the candle database, and what is dropped from it.
- `src/analysis` — which prices enter a metric, and what the state of BTC is.
- `src/ui` — the state of the screen under messages, filtering and sorting of the
  table, texts and colours.
- `src/double.rs`, `src/text.rs`, `src/order.rs`, `src/clock.rs`, `src/json.rs` —
  comparing doubles, texts, stable ordering, points in time, JSON documents.
- `app` — the program: network, database, arithmetic on doubles, and drawing.
- `tests` — the library on concrete values.

Doubles are held in the library by their bit patterns: comparing two of them takes
integers only. Arithmetic on them is the program's; the library decides what enters
it and takes the results as arguments.

Candles are stored in `vsbtc/data.db` in the platform's folder for data. They are
kept as long as they are read, from three days for those of five minutes on; monthly
candles are kept for good.
