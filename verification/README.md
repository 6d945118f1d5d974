# optimistic_verifier

Gathers the validators' votes on blocks and checks their signatures
optimistically: signatures wait unchecked until their authors carry a quorum
of voting power or enough of them wait, are then combined and checked once,
and are checked one by one only when the combination fails.

- `src/` is the library, verified with Verus: the vote bookkeeping
  (`optimistic_validator_verifier`), the validator set's voting powers
  (`validator_verifier`), the `lru` cache of recently aggregated blocks
  (`lru_cache`), the remote executor's messages (`remote_executor`) and the
  choice of block gas limits (`gas_limits`).
- `app/` is ordinary Rust around it: the signature cryptography and the clock
  that handling a vote needs (`driver`), the protobuf encoding of the messages
  (`messages`) and the executor's thread pool (`thread_pool`).

Scope: the library is about vote aggregation and about the inputs of block
execution tests, not about executing blocks. The randomized block-execution
test runs need a block executor, mock transactions, a baseline and transaction
generators, none of which this crate has; of those runs, `gas_limits` holds
the choice of block gas limits and `app/thread_pool.rs` the executor's thread
pool.
