//! Extraction of palette, bitmap and texture records from a tagged binary
//! container, and an edge-directed 2x upscaler for the RGBA pixel buffers
//! that the extracted records resolve to.
//!
//! The upscaler works on packed 32-bit RGBA samples and carries out three
//! ordered passes over the doubled buffer.  All of its arithmetic is exact
//! fixed-point integer arithmetic, so every pass is deterministic and fully
//! specified by the spec-level model in `model`.

pub mod kernel;
pub mod model;
pub mod pixel;
pub mod records;
pub mod scale;
pub mod stream;
