//! Abyss tournament: NPC battles grouped into seasons, tickets bought with a
//! token, votes on battle winners, points, and bonuses paid out of a season
//! treasury.
//!
//! The pallet's storage is modelled by [`pallet::Pallet`], whose extrinsics are
//! methods from the current state and a call's arguments to the next state.
//! Token movements are returned as [`types::TokenAction`]s for the runtime to
//! perform; everything the runtime must supply (the caller's origin, the time,
//! balances) is an argument.
#![allow(non_camel_case_types)]

pub mod types;
pub mod votes;
pub mod codec;
pub mod time;
pub mod rewards;
pub mod model;
pub mod pallet;
pub mod laws;
