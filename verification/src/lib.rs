//! A recurring-payment vault: subscribers pre-fund a balance that a billing
//! operator periodically debits on behalf of a merchant.
//!
//! The crate is organised around a pure, fully verified core:
//!
//! - [`errors`] — the error taxonomy and its stable wire-level codes;
//! - [`types`] — subscription records, statuses and result types;
//! - [`state_machine`] — the table of allowed status transitions;
//! - [`safe_math`] — checked 128-bit balance arithmetic;
//! - [`vault`] — the vault state: subscription store, id allocation,
//!   configuration, lifecycle operations;
//! - [`charge`] — the charge engine: interval charges, usage charges and
//!   batch billing;
//! - [`merchant`] — merchant balance withdrawal;
//! - [`queries`] — read-only projections over the same state.
//!
//! Host concerns — persistent storage, caller authentication, token
//! transfers, event delivery and the clock — live outside this crate.
//! Callers hand in the current time and authenticated principal
//! identities as plain values and perform value transfers themselves.

pub mod charge;
pub mod errors;
pub mod merchant;
pub mod queries;
pub mod safe_math;
pub mod state_machine;
pub mod types;
pub mod vault;
