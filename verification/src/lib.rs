//! The core of Facet's protocol.
//!
//! FCT (Facet Compute Token) is minted for what transactions burn on L1. The
//! mathematics of it is in `issuance`, the code that does it in `fct_mint`, and
//! what holds of it in `issuance_laws`, `halving_bound` and `mint_laws`; what its
//! terms come to in plain numbers is in `issuance_terms`, `burn_steps` and
//! `block_laws`. How far minting has got travels from block to block in the L1
//! block info, `l1_info`. `payload_build` decides what goes into the next block;
//! what holds of every such build is in `payload_laws`, and what each answer leads
//! to in `payload_steps`.
pub mod attributes;
pub mod big_endian;
pub mod block_laws;
pub mod burn_steps;
pub mod facet_payload;
pub mod fct_mint;
pub mod fct_params;
pub mod halving_bound;
pub mod issuance;
pub mod issuance_laws;
pub mod issuance_terms;
pub mod l1_info;
pub mod mint_laws;
pub mod payload_build;
pub mod payload_laws;
pub mod payload_steps;
pub mod rational;
