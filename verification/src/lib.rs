//! An authoritative platformer simulation: a world of players that fall under
//! gravity, land on a static level, react to one-character inputs and are
//! published as snapshots once per tick.
//!
//! All quantities are fixed-point integers counted in thousandths of a pixel,
//! so that every trajectory is exact and reproducible.

pub mod units;
pub mod player;
pub mod level;
pub mod input;
pub mod physics;
pub mod ident;
pub mod roster;
pub mod world;
pub mod session;
