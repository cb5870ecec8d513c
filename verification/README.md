# weld

The verified core of Weld, a testnet framework that orders EVM transactions with
Narwhal/Bullshark consensus and executes them in Anvil.

- `src/` is the verified library:
  - `engine` — where a worker's batches are stored, how the batches of a certificate
    become the transactions delivered to the EVM and the one block mined for them, how
    a JSON-RPC query is forwarded to the EVM, and a log of the engine's run whose steps
    follow a model of what a run sends the EVM (lockstep across nodes is proved of that
    model);
  - `client` — the transfers the clients send, and the balances and account lists in the
    shim's answers;
  - `methods` — which JSON-RPC methods change the EVM's state and are never forwarded;
  - `messages` — the HTTP route queries, the length-delimited frame a transaction is sent
    to the mempool in, and the `broadcast_tx` answer;
  - `units` — amounts of wei, written in ether and scaled from whole units;
  - `benchmark` — the benchmark client's bursts and random transfers;
  - `decimal` — decimal rendering of integers; `types`, `external` — shared types.
- `tests/` runs the library with the real outside crates.
- `app/` is the I/O around it: the engine's event loop, the warp routes, and one program
  that runs the EVM node, the demonstration client or the benchmark client.
