# payments_core

A payment transaction engine whose core is verified with Verus. Transactions
(deposit, withdrawal, dispute, resolve, chargeback) are validated against the
client accounts and deposit records and then applied; a rejected transaction
leaves the ledger unchanged. Amounts are decimals handled by `rust_decimal`,
normalized to four places with ties to even.

- `src/` — the verified library: amounts (`amount.rs`), text helpers
  (`text.rs`), identifiers and records (`types.rs`), errors (`error.rs`), the
  ledger with its validation and application (`ledger.rs`), properties of
  transaction processing (`laws.rs`), record conversion (`csv_source.rs`), the
  processing loop (`processor.rs`) and the accounts report (`output.rs`).
- `app/` — the command-line program: argument parsing, CSV reading, printing.
- `tests/` — tests of the library.

Usage of the program: `payment-processor transactions.csv > accounts.csv`.
