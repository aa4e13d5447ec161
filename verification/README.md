# quiet_ledger

The logic of the Quiet Ledger contracts and SDK, verified with Verus.

- `src/` is the verified library. The three contracts are state machines
  over their storage: each invocation takes the ledger context (`host::Env`:
  the ledger sequence and the addresses that authorized the call) and
  either updates the state or fails with the state unchanged. The SDK part
  builds the contract calls and decodes the returned values; strkey
  encoding and key derivation go through `soroban-client` behind the trusted
  wrappers in `src/strkey.rs`.
- `app/` carries out the SDK's calls against a Soroban RPC server.
- `tests/` exercises the library on concrete values.
