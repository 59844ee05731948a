//! Tick-aligned accumulation and quantized binary packing of game-world
//! snapshots, for playback scrubbing in a resource-constrained client.
//!
//! The library works on plain values: positions arrive already quantized to
//! 16-bit codes and angles to 8-bit codes, categorical fields are small
//! enums.  Packing an entity state into its fixed-size byte record, growing
//! the per-entity buffers tick by tick, backfilling late entities, and
//! reducing the raw event log are all verified here.

pub mod codec;
pub mod events;
pub mod flat;
pub mod state;

pub use codec::Angle;
pub use codec::BuildingType;
