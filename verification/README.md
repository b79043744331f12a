# bonsol_node fee estimation

Estimates Solana priority fees (micro-lamports per compute unit) for the claim and
proving transactions of a prover node, and decides whether a tip covers their cost.

- `src/percentile.rs`: the percentile of recent prioritization fees, with its laws
  (the fee is a sample, rises with the percentile, spans minimum to maximum, ignores the
  order of the samples, and how it ranks among them).
- `src/estimate.rs`: the fee estimate and configuration types, the fallback/default rules
  for RPC answers, transaction cost and profitability.
- `src/service.rs`: the fee service state: its RPC client, configuration and cached
  general estimate, and the steps of a cached general estimate.
- `app/lib.rs`: the asynchronous service around it, which performs the RPC requests,
  reads the clock, locks and logs.

Everything under `src/` is verified with Verus; `tests/` runs it on concrete values.

## Which sample a percentile selects

Of `n` fees sorted ascending, percentile `p` selects the one at zero-based rank
`min(max(n * p / 100 - 1, 0), n - 1)`. This is the rule the project's tests fix: of the
ten fees 100, 200, ..., 1000 they expect 500 at percentile 50, 700 at 75 and 900 at both
90 and 95, and of the two fees 100 and 200 they expect 100 at percentile 75; a single
fee is selected at any percentile. Those values select one rank below `n * p / 100`,
and this rule does so at every point, with the floor at rank 0 and the cap at the last
rank. Other rules, such as `(n - 1) * p / 100`, also meet every tested value; they
differ between the tested points (three fees at percentile 50: this rule selects the
smallest, that one the middle fee). The rule chosen keeps the shape of the rank
computation the project wrote, `n * p / 100` capped at `n - 1`, and moves it down by the
one rank that every test asks for.

## Time

The cached general estimate is served while fewer than `cache_duration_secs` whole
seconds have passed since the fetch that stored it. The service records that fetch's
time, in nanoseconds on the caller's monotonic clock counted from the service's
creation; a cache hit leaves it unchanged.
