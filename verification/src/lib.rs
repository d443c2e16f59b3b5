//! A small on-chain-style economic loop for a location-based rewards
//! program, written as explicit state machines:
//!
//! * [`tur_token`] — a fungible reward-token ledger with balances,
//!   allowances, minting and burning;
//! * [`checkin_nft`] — a soulbound check-in registry that pays a fixed
//!   reward through the token ledger;
//! * [`marketplace`] — purchase settlement that splits a payment into a
//!   platform fee and a merchant payout, optionally burning reward tokens
//!   through a pre-granted allowance.
//!
//! Each component owns its state as an ordinary value passed by reference
//! into every operation, and takes the authenticated caller identity as an
//! explicit argument; the hosting environment is expected to verify
//! signatures and persist the state between invocations.

pub mod checkin_nft;
pub mod marketplace;
pub mod tables;
pub mod tur_token;
