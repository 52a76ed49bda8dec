# train_db

A peer-to-peer key-value database for unreliable networks (trains, planes,
disaster areas), with Wi-Fi and Bluetooth mesh transports.

The library (`src/`) is written in Verus. Its functions carry contracts
that Verus proves, except the small wrappers marked
`#[verifier::external_body]` that call `serde_json`, `hex`, `libp2p` and a
few `String` functions: their contracts are believed, not proved, and their
doc comments say what each claims of the outside code.

- `storage`: the `Storage` trait, storage errors, and what a backend's raw
  bytes become (UTF-8 decoding of values, listing of keys, store summary).
- `api`: the answers of the HTTP interface for each storage result.
- `sync`: what a node does with a command (write, read, delete, list,
  publish), the JSON message that tells the peers about a change, and how a
  change published by a peer is read and applied.
- `cli`: what a line typed at the interactive prompt asks for.
- `text`: splitting a line into words (with double quotes), substring
  search and other text helpers.
- `dashboard`: the dashboard's counters, bounded activity log and peer list.
- `mesh`: the discovered-peer table, transport health (a transport that
  goes down comes back once peers are found over it), discovery steps and
  message routing of a mesh node.
- `bluetooth`: which Bluetooth devices are peers, the peer id derived from a
  device id, the connection list and the message queue.

The program (`app/`) holds what the library cannot: the command line, the
RocksDB backend, the HTTP and dashboard servers, the prompt's input and
output, timers, simulated discovery, Bluetooth hardware access and the
floating-point connection-quality score.
