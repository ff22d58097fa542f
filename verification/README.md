# obol

A personal-finance snapshot tool: it gathers account balances from Plaid
and from statement PDFs, stores a snapshot with account numbers replaced by
salted hashes, and shows net worth, emergency-fund coverage, debt payoff
priorities, monthly spending and a financial checklist.

Layout:

- `src/` is the library, written in Verus. Amounts are integer cents,
  percentages and rates are hundredths, and every public function carries a
  contract that Verus proves. Statement parsers, the snapshot engine's
  bookkeeping, source management, the recommendation rules and the screens'
  key handling all live here.
- `app/` is the program around it: the command line, file and keychain
  storage, the Plaid HTTP client, PDF text extraction, the lock file and the
  terminal screens. It converts between floating-point amounts and cents.
- `tests/` runs the library on concrete inputs.
