# chunked_l1

Chunked proving of layer-one blocks, verified with Verus.

A block is split into ranges of transactions. Each range is executed on its own by the chunk
program, which leaves an artifact: the summaries of its transactions, what it touched, and the
hashes of the block and of its access list. The merge program checks that the artifacts cover the
block and belong to it, and finishes the block.

- `src/` is the verified library. `range`, `summary`, `artifact`, `coverage` and `gather` hold the
  data and the checks on it; `chunk` and `merge` hold the two programs as machines that ask for
  outside work and take the replies; `prover` splits a block and gathers what the workers return;
  `payload` holds execution payloads; `rlp`, `hash`, `text`, `primitives` and `error` are what the
  others are built on. The modules ending in `laws` state what holds of them together.
- `tests/` runs the library on concrete values.
- `app/` is ordinary Rust around the library: the virtual machine, the witness, threads and wire
  forms.

The Keccak-256 hash is the only function that is trusted; see `src/hash.rs`.
