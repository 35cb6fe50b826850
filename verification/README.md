# Subnet rental canister

A canister on the Internet Computer that rents out whole subnets: it keeps the rental
conditions, turns adopted rental request proposals into rental requests (locking 10% of the
price in cycles every 30 days), turns requests into rental agreements once the subnet
exists, tops up and burns the cycles that pay for each agreement, refunds users, and keeps a
paged history of every change.

The library in `src/` is written in Verus and verified: each step of each canister method
is a function from the state and the answers of other canisters to the next state and the
next call, with a contract that says exactly what it does.

- `canister.rs`: the steps of the canister's queries, updates and timers; prices, status
  texts, burning and top-up arithmetic.
- `canister_state.rs`: the state (conditions, requests, agreements, locks, history, the
  exchange-rate cache) and the snapshot that carries it across upgrades.
- `keyed_map.rs`: the verified map that holds the state's collections.
- `external_calls.rs`, `external_types.rs`, `types.rs`: what is sent to the ledger, the
  cycles minting canister and the exchange rate canister, and what is made of their answers.
- `history.rs`: the events of the history.
- `migration.rs`: the one-shot move of an agreement to cheaper rental conditions.
- `http_request.rs`, `text.rs`: the web pages and the texts shown to users.
- `principal.rs`: principals as bytes, and their textual form.
- `xrc_mock.rs`: the logic of a stand-in exchange rate canister for tests.
- `external_canister_interfaces/`: Candid types of the NNS governance canister.

`app/` holds the canister itself around the library: the endpoints, timers, the calls to
other canisters and the Candid types. `tests/` exercises the library.
