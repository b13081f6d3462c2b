//! Selectors for a validator's change notifications, and the steps of
//! handing a selected event to a message broker.
//!
//! A validator reports every account update, instruction and transaction it
//! sees. The [`selectors`] decide which of them are wanted, against flat
//! allow-sets of identifiers ([`keys`]) and two binary formats of the token
//! program ([`token`]). What is wanted is written to a broker; [`delivery`]
//! decides how such a write proceeds and ends.
//!
//! Every function here is verified against its contract. The few places
//! where the library calls into other crates are marked as trusted, with
//! what is assumed of them.

pub mod config;
pub mod delivery;
pub mod interface;
pub mod keys;
pub mod search;
pub mod selectors;
pub mod token;
pub mod unique;
