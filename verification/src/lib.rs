//! PERMAFROST: a perpetual vault for any fungible alkane token.
//!
//! Deposits mint the vault's share token at the current rate; exits pay a
//! tithe into the pot; the pot drips back to those who stay. There is no
//! proxy, no admin and no protocol fee.
//!
//! The vault keeps its liquidity `L`, its pot `B`, its share supply `S` and the
//! drip anchor `h0`. The share rate is `(L - B) / S`. Its parameters, fixed at
//! the setup, are the tithe rate `p`, the drip interval `I` in blocks and the
//! release horizon `P` in drips.
//!
//! - Release, the first step of every operation: `e = (h - h0) / I`, rounded
//!   down; `B` becomes `B * ((P - 1) / P)^e`; `h0` grows by `I * e`. While only
//!   dead shares stand, the drips are consumed and `B` stays whole.
//! - Deposit of `d`: mints `d * S / (L - B)` shares, rounded down; `L` grows by
//!   `d`. The first deposit mints one share per unit and burns the dead shares.
//! - Exit of `b` shares: they are worth `w = b * (L - B) / S`, rounded down; the
//!   tithe is `p * w`, rounded up; `L` shrinks by the rest, `B` grows by the
//!   tithe.
//! - Donation of `d` into the pot: `L` and `B` grow by `d`.
//! - Boost of `d`: `L` grows by `d`; refused while no one stands.
//!
//! [`vault`] holds the vault, [`model`] says what its calls do, and [`laws`]
//! says what holds of them: above all that the rate never decreases, that the
//! books balance, and that every rounding goes against whoever calls.

pub mod bytes;
pub mod error;
pub mod fixed;
pub mod laws;
pub mod message;
pub mod model;
pub mod parcel;
pub mod vault;
mod wide;

pub use crate::error::VaultError;
pub use crate::fixed::pot_after_release;
pub use crate::message::PermafrostMessage;
pub use crate::parcel::{AlkaneId, AlkaneTransfer, CallResponse, Context};
pub use crate::vault::{Cells, Permafrost};
