# near_sdk promises, verified

Building, combining and scheduling cross-contract promises, with contracts proved by Verus.

- `src/types.rs`: the plain types promises are made of (balances, gas, indices, keys).
- `src/env.rs`: `Env`, the promise functions of the host as a verified state. It records
  each host call in order; its view is the set of promises those calls create, replayed
  call by call, and its invariant is that every recorded call names only promises
  created before it, and appends actions to, or returns, batch promises only. The
  host's limits on the number of actions and dependencies are
  not modelled.
- `src/promise.rs`: `PromiseBuilder`, `PromiseThen`, `PromiseAnd`, `Promise`,
  `PromiseOrValue` and the `SchedulablePromise` trait, each specified over that view
  and over the exact host calls it records.
- `src/laws.rs`: properties that span several functions.
- `app/`: replays the recorded calls against the NEAR host, checking that the host
  numbers the promises as `Env` does, and gives the promise types
  their Borsh and JSON schemas.
