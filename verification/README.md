# themisfuzzer

A differential fuzzer for a PBFT replica and a patched copy of it. Both
replicas receive the same protocol messages, chosen from the fuzz input, and
afterwards their states are compared; the first component in which they
differ is reported and the run stops.

- `src/` is the verified library: reading a fuzz input (`harness`), planning
  the message for the unpatched replica (`messages`) and for the patched one
  (`patch`), comparing replica snapshots (`comp`), and choosing the next patch
  to apply (`restarter`). `payload` and `randomness` hold the contracts
  assumed of `bytes` and `rand`.
- `tests/` runs the library on concrete values.
- `app/` builds the protocol messages of the replicas from the plans, sends
  them, reads the replicas' states into snapshots, and does the file and
  process work of the patch rotation.
