# csv_payment_engine

A payment engine that applies deposits, withdrawals, disputes, resolves and
chargebacks to client accounts and reports the final state of every account.
Amounts are fixed-point integers with four decimal places.

Input (`type,client,tx,amount`):

```
type,client,tx,amount
deposit,1,1,100.0
withdrawal,1,2,50.0
dispute,1,1,
resolve,1,1,
chargeback,1,1,
```

Output (`client,available,held,total,locked`):

```
client,available,held,total,locked
1,50,0,50,false
```

Usage: `csv_payment_engine transactions.csv > accounts.csv`.

## Layout

- `src/` — the library, verified with Verus.
  - `engine/engine.rs` — the engine: the state model (`EngineView`), the outcome
    of each transaction (`settlement`, `applied`) and the executable engine whose
    `apply` is proved to follow it.
  - `engine/laws.rs` — properties of the engine over sequences of transactions:
    a refused transaction changes nothing, locked accounts are frozen,
    transactions are applied at most once, a resolve undoes a dispute, a
    chargeback reverses it; held funds track open disputes, totals track the
    ledger, an account is locked exactly when one of its transactions was
    charged back, and small enough amounts never overflow.
  - `source/csv_transaction.rs` — from an input record to a transaction.
  - `util/amount.rs` — parsing and formatting of amounts, and the proof that
    parsing a formatted amount gives it back.
  - `util/decimal.rs`, `util/text.rs` — the calls into `rust_decimal` and `std`
    that the library relies on, with their contracts.
  - `output/csv_output.rs` — the output fields of an account.
- `app/` — the program: reading the CSV input, writing the CSV output, errors
  with their messages.
- `tests/` — tests of the library.
