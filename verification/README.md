# darwinx

A toolkit for multi-timeframe trading strategies: timeframes and their
alignment, candle series per timeframe, strategy syntax trees with builders,
constraints and a validator, the decisions and statistics of backtests, the
date window and timeframe of a dataset, and the export of a stored strategy
as a Rust module.

- `src/` is the library, verified with Verus: every public function states
  its result in its contract, and the laws that relate functions are proof
  functions (`lemma_*`). Prices and other doubles are carried as IEEE-754 bit
  patterns and compared with `doubles::double_less_than`.
- `tests/` exercises the library.
- `app/` holds what sits around it: candles and orders with `f64` prices,
  serde records of the library's types, CSV/Parquet loaders (Polars), the
  asynchronous backtest loop, floating-point metrics, random and genetic
  strategy generation, writing exported strategies to disk, and printed
  examples.
