# perigee

Verified core of the Perigee Soroban contract suite.

`src/` is the library, verified with Verus. Each contract's logic is a
method over a plain model of its storage entries (`Option` per key), with
contracts stated over spec functions and views; keyed entries are looked up
by the caller and passed in. The laws of the suite are public proof
functions named `law_*`.

| module | contents |
|---|---|
| `address` | addresses as canonical byte strings |
| `crypto` | host SHA-256 and XDR encoding (trusted), big-endian encodings |
| `decimal_norm`, `rewards_calc` | decimal normalization, 256-bit multiply-divide, reward compounding (see below) |
| `guards` | pause bitmask and multi-signature admin committee |
| `twap_oracle`, `policy_vault`, `proxy`, `event_indexer` | contract state machines |
| `bridge`, `cross_chain` | bridge adapters, digests, Merkle proofs, replay protection |
| `batch_transfer`, `token_uri`, `audit_trail`, `bootstrap` | batching, URI cache, audit hash chain, deployment checks |
| `voting_snapshot`, `staking_snapshot`, `migrations`, `consistency`, `reentrancy`, `typed_args` | smaller helpers |

`app/` holds the Soroban contracts themselves: storage, authorization,
events and cross-contract calls around the library. `tests/` exercises the
library on concrete values.

Reward compounding: `rewards_calc` checks the accrual window and the decay
rate of the multiplier (`multiplier_window`) and applies a given multiplier
to a balance (`apply_multiplier`). The multiplier itself is
`exp(r0 * (alpha^k1 - alpha^k2) / d)`, which needs the suite's fixed-point
`exp` and `pow`; that math library is not part of this crate, so computing
the multiplier is left to the caller.
