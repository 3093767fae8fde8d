# rusty_core

The consensus core of the Rusty-Coin blockchain, written in Verus: every function in
`src/` carries a `requires`/`ensures` contract that Verus proves.

## Layout

- `src/bytes.rs`, `src/text.rs`, `src/uint.rs`: byte strings, the text forms that error
  messages use, and 256-bit targets.
- `src/crypto.rs`: the hash and signature functions of the outside crates (BLAKE3,
  SHA-256, SHA-1, RIPEMD-160, Ed25519), each behind a small trusted wrapper whose contract
  names its result.
- `src/types.rs`, `src/encoding.rs`, `src/assoc.rs`: transactions, headers and blocks;
  their canonical byte encoding, transaction ids and header hashes; an insertion-ordered
  map with distinct keys.
- `src/script/`: the FerrisScript engine, standard scripts and signature hashes.
- `src/consensus/`: the UTXO set, proof of work and proof of stake, governance state,
  the chain's transaction and block rules, processing and undoing blocks, and the block
  store.
- `src/mempool.rs`, `src/governance.rs`: the transaction pool and masternode governance.
- `src/network/`: checks on downloaded headers and blocks, peer bookkeeping and the
  synchronisation state machines.
- `src/light_client.rs`: header tracking and proof caching for a light client.
- `tests/`: the test suite, run against the compiled library.
- `app/`: what cannot be verified: logging, persistence with serde and bincode,
  floating-point progress figures and thresholds, durations and clocks.

Contracts are stated over mathematical views (`Seq`, `Map`, `Set`, `int`); the laws that
relate several operations (what removing undoes, what reverting a block takes back, what
a stored block reads back as) are public proof functions named `law_*`.

## What the library leaves out

- Floating-point quantities: the stake reward ratio and the governance percentages are
  held in `app/`; the library takes thresholds in basis points, checks that a
  floating-point parameter's text reads as an `f64`, and takes the miner's and voters'
  reward shares as integers.
- Adding a block does not recompute the block's state root; the bytes a governance
  transaction is signed over are handed to it, not computed; masternode slashing
  transactions and their proofs are not part of the transaction types.
- Threshold signatures, sidechains and federations, and the peer-to-peer network rest on
  libraries this crate does not depend on; encoding values with serde and `bincode`, and
  writing them to disk, happen in `app/`.
