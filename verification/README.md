# wallet_backend

The coordinator of a multi-chain EVM wallet, verified with Verus.

It plans sends and drives them from a nonce to a human's approval and on to the
chain, polls what waits for a decision, fans out reads of balances and prices and
joins what comes back, and parks the answers of jobs until they are collected.
Outbound calls, files and the clock belong to the host.

## Layout

- `src/` is the library.
  - `jobs`, `job_laws`: the board that answers wait on.
  - `flow`, `send`, `status`, `plans`, `methods`, `flow_laws`: every method that
    leaves the process, as a state machine that is handed replies.
  - `balances`: reading balances, in one batch or one by one.
  - `market`, `market_flow`: prices and holdings.
  - `backend`, `backend_laws`, `store`: the module's state and what it saves.
  - `config`: telling the endpoint client about the configured chains.
  - `interface`: the module as its callers see it.
  - `json`, `address`, `amount`, `text`, `strmap`: values.
- `app/` is the module on a host: it makes the calls, waiting or from callbacks.
- `tests/` runs the library.

## What is trusted

JSON text comes from `serde_json`, hexadecimal text from `hex`, amounts and
addresses from `alloy`, letter case and quoting from the standard library. Each of
these calls is one function marked `external_body`, whose doc comment says what is
believed of it.
