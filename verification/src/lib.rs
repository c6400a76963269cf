//! Reconstructs the lifecycle state of a large population of objects from
//! partitioned event logs and renders one raster frame per time bucket.
//!
//! Objects are addressed by a two-level id (segment, in-segment number) that
//! a prefix-sum offset table maps to a dense state array.  Events are merged
//! across sources into globally time-ordered batches; each batch is applied
//! through a fixed transition table and then rendered as a downsampled,
//! annotated image buffer.

pub mod batch;
pub mod index;
pub mod merge;
pub mod render;
pub mod state;
pub mod summary;

pub use state::FileState;
pub use state::Operation;
