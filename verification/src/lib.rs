//! Relay-chain gated block authorship for a parachain.
//!
//! A node may author the next parachain block only when an on-chain
//! eligibility oracle says so for the current relay-chain height. The library
//! holds the verified halves of that protocol: the candidate-production state
//! machine that gates an attempt, assembles inherent facts, seals and imports
//! a block, and the pallet-side freshness check that re-derives the acceptance
//! bound from committed state. Relay-chain I/O, the block proposer and the
//! block importer are outside collaborators: the machine tells its driver
//! which call to make next and consumes the reported outcome.

pub mod scale;
pub mod bundle;
pub mod block;
pub mod pallet;
pub mod producer;
