//! Deterministic turn-based strategy simulation core with an idempotent
//! match-submission service.
//!
//! The simulation engine owns game state, validates and applies player
//! actions, enforces simulation invariants, and produces a stable content
//! hash of state. The match orchestrator applies each submitted action at
//! most once and replays the stored acknowledgement on retry.

pub mod action;
pub mod codec;
pub mod deal;
pub mod engine;
pub mod hashing;
pub mod checker;
pub mod ids;
pub mod laws;
pub mod orch;
pub mod planner;
pub mod state;
pub mod strutil;

pub use ids::CityId;
pub use ids::Hash128;
pub use ids::PlayerId;
pub use ids::TileCoord;
pub use ids::UnitId;
