# nova_token

A fungible token ledger (balances, allowances, an administrator who mints,
metadata and a total supply), verified with Verus.

- `src/model.rs` — the mathematical model: `TokenState`, when each operation
  is refused (`*_error`), the state it produces, and what it writes and
  announces (`*_effects`).
- `src/token.rs` — `NovaToken`, whose operations are proved to follow the
  model exactly; `DataKey`, `TokenEvent`, `Effects`.
- `src/ledger.rs` — `Ledger<K>`, a table of non-negative amounts viewed as a
  `Map`; `src/sum.rs` — sums over finite maps; `src/address.rs` — `Address`.
- `src/laws.rs` — properties proved of all operations: consistency is kept,
  the total supply always equals the sum of balances, burn undoes mint, a
  transfer back restores balances, an allowance reads back its approval, a
  spender moves at most what was approved over any sequence of calls, and the
  administrator, name, symbol and decimals never change once initialized.
- `app/` — the Soroban contract: it loads the entries an invocation touches
  from host storage into a `NovaToken`, obtains the authorizations, calls the
  library, writes back the entries listed in `Effects` and publishes the event.
