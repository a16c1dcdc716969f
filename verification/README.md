# namada_governance

Governance proposals, public goods funding and bridge pool vote extensions, as
a library that is verified with Verus.

- `src/proposal.rs`, `src/utils.rs`: proposals, their stages, who may vote when,
  which tally they need, and how they are shown.
- `src/pgf.rs`, `src/onchain.rs`, `src/stewards.rs`: payments and changes to the
  set of stewards, and how requests turn into them.
- `src/ibc_target.rs`, `src/codec.rs`, `src/schema.rs`, `src/identifiers.rs`: the
  stored form of a payment to another chain, its description, and the
  identifiers in it.
- `src/bridge_pool.rs`: validation and de-duplication of vote extensions.
- `src/text.rs`, `src/types.rs`: decimal text and plain values.

Functions whose names start with `law_` state properties of the library as a
whole. Functions marked `external_body` call `borsh`, `ibc-core-host-types`,
`itertools` and the standard library; their doc comments say what is taken on
trust.

`app/` holds the storage and wire forms of the types and the shell that asks
the ledger's storage for verdicts on vote extensions.
