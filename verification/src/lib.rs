//! A multisig governance engine: a bounded group of members collectively
//! authorizes membership changes through proposal creation, voting, and
//! threshold-gated execution.
//!
//! The member group lives in [`registry`], proposal and vote records in
//! [`store`], and the quorum arithmetic in [`policy`]. The entry points of
//! [`engine::SmultisigModule`] tie them together; each is specified as an
//! atomic transition of the mathematical state in [`state`], and the
//! guarantees that span several operations are proved in [`laws`].
//! Derived group account identities come from [`account`].

pub mod account;
pub mod engine;
pub mod laws;
pub mod order;
pub mod policy;
pub mod registry;
pub mod state;
pub mod store;
pub mod types;
