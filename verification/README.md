# Facet protocol core

The rules of Facet's protocol as a Verus library: the code is executable Rust,
and its behaviour is stated in contracts that Verus proves.

- `src/issuance.rs` defines the issuance of FCT over real numbers: periods,
  rates, halvings, and what a burn mints.
- `src/fct_mint.rs` computes it with exact rationals and is proved against those
  definitions. `src/rational.rs` holds the operations of `num_rational` that it
  rests on.
- `src/issuance_laws.rs`, `src/halving_bound.rs` and `src/mint_laws.rs` prove
  what holds of issuance as a whole: amounts add up, the supply is capped, the
  rate keeps to its limits, the halvings can be counted.
- `src/fct_params.rs` holds the parameters of minting, `src/facet_payload.rs` a
  Facet transaction.
- `src/l1_info.rs` encodes and decodes the L1 block info, over the byte strings
  of `src/big_endian.rs`.
- `src/payload_build.rs` builds the attributes of the next payload, answer by
  answer, over the plain types of `src/attributes.rs`. `src/payload_laws.rs`
  proves what holds of every such build.
- `app/` joins the library with a node: its types, its global parameters and its
  providers of chain data.
- `tests/` run the library on concrete values.
