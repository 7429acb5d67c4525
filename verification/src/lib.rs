//! Core logic for a procedurally populated, streamed 3D city world.
//!
//! The library covers the deterministic content generator, the chunk
//! streaming cache with its eviction policy, the floating-origin shift,
//! the binary persistence records, the frustum-culling test and the
//! ingestion of out-of-band mutation packets.
//!
//! All world geometry is held in fixed-point integers: a length of one
//! world unit is 1000 coordinate ticks ("milli-units"), and scale factors
//! are in thousandths (1000 = 1.0).  This keeps every computation exact
//! and reproducible; the embedding renderer converts to floating point at
//! its edge.

pub mod assets;
pub mod chunking;
pub mod city_store;
pub mod culling;
pub mod designer;
pub mod geom;
pub mod net_mutations;
pub mod rng;
