//! A frame-graph compiler: passes declare the resources they read and write, and the
//! compiler turns that declaration into an ordered, synchronized plan that reuses
//! physical storage across resources whose lifetimes do not overlap.
pub mod graph;
pub mod schedule;
pub mod lifetime;
pub mod aliasing;
pub mod barrier;
pub mod plan;
pub mod executor;
pub mod asset_lookup;
pub mod semaphore;
pub mod texture;
pub mod image_asset;
