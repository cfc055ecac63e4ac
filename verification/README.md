# auto_trade

Automated trading on signals, verified with Verus.

A user authorizes the contract to trade for them (without limit, or up to
a maximum per trade until an expiry). Orders on a signal are filled against
a simulated exchange: market orders up to the pool's liquidity, limit
orders completely when the market price is at or below the signal price.
Per-user risk limits cap the number of filled trades per day and the share
of the portfolio one asset may take; a stop-loss check tells when a position
has lost a given percentage. Dollar-cost-averaging strategies buy a fixed
amount of an asset every period and keep a log, running totals and the
average entry price.

## Layout

- `src/env.rs` — `Env`, the ledger the contract works on (time, signals,
  permissions, limits, balances, market data, trade logs, positions,
  strategies) and its mathematical model `EnvView`.
- `src/contract.rs` — the entry points: `execute_trade`, trade log queries,
  portfolio report, authorization grants, risk limits.
- `src/risk.rs` — risk limits, positions, portfolio valuation, stop loss.
- `src/sdex.rs` — order filling.
- `src/auth.rs`, `src/storage.rs` — permissions and stored signals.
- `src/strategies/dca.rs` — dollar-cost-averaging strategies.
- `src/laws.rs` — properties that relate several operations, proved.
- `src/fixtures.rs` — the standard starting ledger (time 1000, nothing
  stored) and the standard signal (price 100, base asset 1).
- `app/` — the library deployed as a Soroban contract: storage, addresses
  and authorization around the verified operations.

`Env` carries its invariant (one position per asset for each user,
strategies stored in id order and consistent with their purchase logs) as
a type invariant, so no operation asks its caller for it.

Every operation's contract states its result and the new ledger exactly,
including on which inputs each error is returned. Where the arithmetic of
an operation could leave `i128`, the operation requires that it does not,
and a companion `*_in_range` function decides that condition.

Check with `verus` on `src/lib.rs`; run the tests with `cargo test`.
