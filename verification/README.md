# Belgian spot tariff calculator

Month-to-date Belgian variable electricity tariffs from Belpex day-ahead
spot prices, weighted by the Synergrid solar production (SPP) and reference
load (RLP) profiles, with configured price formulas `price = a * index + b`
and VAT.

The library under `src/` is verified with Verus:

- `decimal`: the decimal numbers everything is computed in; the arithmetic
  is done by `rust_decimal` behind small trusted wrappers.
- `text`, `calendar`: trimming, unsigned numbers, Belpex dates and times,
  month lengths.
- `sheet`: worksheet cells, header columns, and the readers of the SPP, RLP
  and Belpex sheets.
- `weighted`, `hourly`: the weighted index and the hourly averaging of
  prices.
- `index`, `pricing`, `calc`: the index names, price formulas, VAT, the
  configuration, and the calculations built on them.
- `report`: input paths, month coverage and the rounded printed figures.
- `laws`: properties that relate several calculations.

`app/` is the command-line program: it reads the workbooks (with `calamine`)
and the TOML configuration, and prints the report.
