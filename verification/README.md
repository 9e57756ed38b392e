# jormungandr

The decisions of a blockchain node, verified with Verus: which blocks may join the
chain, how a chain is brought up, and what a peer's events are answered with.

- `src/block.rs`: headers and blocks as plain data.
- `src/blockchain/`: the chain. `chain.rs` has the stores and the two checks of a
  header, `load_block0.rs` and `load_storage.rs` bring up a chain, `laws.rs` and
  `load_laws.rs` state what holds of it.
- `src/network/`: the client of a peer. `connect.rs` leads to a client, `client.rs`
  has its round of polls, `inbound.rs` takes in what the peer sends, `laws.rs` states
  what holds of them.
- `app/`: futures that do the input and output which the library asks for.

The library neither waits nor does input or output. An operation that needs something
from outside returns a value that says what; it is resumed with the answer. Ledgers,
leadership schedules and block bodies are type parameters: they are carried, never
looked into.
