//! What holds of the vault as a whole.

pub mod calls;
pub mod decay;
pub mod exit;
pub mod history;
pub mod rate;
pub mod release;
pub mod round_trip;
pub mod terms;
pub mod tokens;
pub mod wire;
