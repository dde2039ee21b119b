# dse

A node of a decentralised search engine: a peer-to-peer marketplace where a
requester publishes a search query, providers bid on it, and the two sides of
an accepted bid lock funds in rounds of time-locked commitments before the
service is delivered.

The library in `src/` is written in Verus and verified:

- `storage`: queries, bids, trades and commitments, the node's store of them
  (ordered tables keyed as the database keys them), commitment hashing and
  signer recovery.
- `table`: the ordered byte-keyed table under the store, with its
  lexicographic key order.
- `commit_procedure`: the status steps of a trade's commit procedure and the
  requests that carry this node's commitments.
- `indexer`: what the node does with each network event, and which trades
  it starts sending commitments for on each tick.
- `ch_request`: loading a wallet's commit history from its providers.
- `server`: the checks and records behind the local HTTP API.
- `network`, `subscription`, `handler`: the messages nodes exchange and small
  decisions around them.
- `laws`: properties of the library as a whole, proved.
- `primitives`: peer ids, addresses, 256-bit amounts and signatures as plain
  values; `ethers_calls`: the calls into `ethers`, each with its contract.

`app/` is the program around it: command-line options, the on-disk database,
the Ethereum client, the peer-to-peer network and the HTTP server.
