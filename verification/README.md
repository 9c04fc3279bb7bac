# difttt

A Verus-verified library for DIFTTT, "decentralised if-this-then-that": users
store trigers (timers, schedules, price and ARH999 thresholds, OAK automation
events), actions (mail, oracle, Slack, token purchases) and recipes joining
them; an off-chain worker watches the trigers and turns fired recipes into
published tasks and unsigned transactions.

Layout:

- `src/difttt/pallet.rs`: the storage and every call, with contracts over a
  mathematical view of the storage (`PalletView`).
- `src/difttt/offchain.rs`: the worker's decisions, as a state machine: which
  recipes are tracked, how a triger check starts, goes on with each reply of
  the outside world and is recorded, and what a fired recipe's action publishes.
- `src/difttt/worker.rs`: a whole run of the triger checks, with the outside
  work performed by a host, and what a run keeps of every tracked recipe.
- `src/difttt/feeds.rs`: reading prices and the ARH999 indicator, and building
  the task runner's and the OAK service's request addresses.
- `src/difttt/unsigned.rs`: which unsigned transactions are admitted.
- `src/difttt/laws.rs`: properties that span several calls.
- `src/template.rs`: the smaller template pallet and its worker.
- `src/text.rs`, `src/bounded.rs`, `src/support.rs`: decimal numbers, UTF-8,
  Base64, bounded byte vectors, origins and dispatch errors.
- `app/lib.rs`: the worker's loop against a host that performs HTTP requests,
  off-chain storage, locks and transaction submission.
