# betfair_data

A verified library for reading Betfair exchange stream data (historic files
and self-recorded streams) into markets, runners and price ladders.

- `src/` is the library, written and proved with Verus: price ladders and
  their updates, runner and market changes, market definitions, the three
  market forms (markets that change by copy, markets that change in place,
  and betfairlightweight-style market books), the file iterators that hand
  markets out one at a time, reading files from several sources in turn,
  reading a file's bytes by its extension (JSON, gzip, bzip2), and the
  stream API's line framing and message types.
- `app/` is ordinary Rust around it: reading files and tar and zip
  archives from disk, reading the JSON messages into the library's values,
  and driving the library over each file.
- `tests/` holds the tests.

Decimals of the stream are held as whole hundredths (prices, sizes and
volumes) or as order-preserving integer keys (other decimals); see
`src/price_size.rs`.
