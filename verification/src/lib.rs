//! Deterministic-address, authority-delegated state store.
//!
//! Components own records that live at addresses derived from a label and a
//! list of seeds. A record names an authority; a mutation goes through only
//! when the caller proves control of that authority, either by a signature
//! or by showing that the authority is an identity derived under the
//! caller's own address. One step of the derivation is done by
//! `solana_pubkey`, reached through `anchor_lang`; everything built on top of
//! it is verified.
//!
//! The parts, leaves first:
//!
//! - [`identity`]: identities, and identities as a request presents them;
//! - [`deriver`]: the derivation of identities, and its recomputation;
//! - [`store`]: keyed storage of records, each created once;
//! - [`guard`]: who may create and mutate a record;
//! - [`invoke`]: one component acting on a record of another, on behalf of
//!   an identity that it derives;
//! - [`exchange`]: payment against newly issued units, as one atomic request;
//! - [`request`]: what the handlers of the components share.
//!
//! Five small components are built from these parts: a counter
//! ([`hello_world`]), a blog with a chain of posts ([`blog`]), a puppet
//! ([`puppet`]) with its two masters ([`puppet_master`],
//! [`puppet_master_direct`]), and a token sale ([`token_sale`]).

pub mod blog;
pub mod deriver;
pub mod error;
pub mod exchange;
pub mod guard;
pub mod hello_world;
pub mod identity;
pub mod invoke;
pub mod puppet;
pub mod puppet_master;
pub mod puppet_master_direct;
pub mod request;
pub mod store;
pub mod token_sale;
