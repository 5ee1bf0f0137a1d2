# sp_domains_fraud_proof

Fraud proofs of domain blocks: what is sent to the consensus chain to reject a bad execution
receipt, and what is needed to verify a challenged state transition.

- `src/` is the library, verified with Verus. `fraud_proof` and `proofs` hold the proofs, their
  targets and their hashes; `execution_phase` the methods, state roots and call data of a challenged
  phase; `extrinsic_digest` the digests of the extrinsics of a bundle; `scale` the encoding that the
  proofs are hashed in; `storage_keys` the keys of two storage items. `laws` states what holds beyond
  single calls.
- `app/` holds the types with the derives for storage and transport, the error with its messages, and
  entry points that test what the library asks of its callers.
- `tests/` runs the library against the codec, the hash functions and the tries of Substrate.

Three functions are handed to `ExecutionPhase::call_data` by the domain chain: the one that makes the
digest item of the consensus block info, the one that makes the key of a place in the trie of the
extrinsics, and the one that verifies a storage proof.
