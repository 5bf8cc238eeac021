//! Columnar interchange codec for perception records.
//!
//! Structured sensor records (images, bounding boxes, 2-D laser scans,
//! joint positions, video-frame references) are assembled into a flat
//! Arrow-style tagged-union wire layout and extracted back out, either
//! as owned values or as zero-copy shared views over reference-counted
//! buffers.

pub mod arrow;
pub mod bbox;
mod buffer;
mod error;
mod float32;
pub mod image;
pub mod image_in_video;
pub mod joints_position;
pub mod laser_scan_2d;
pub mod schema;

pub use buffer::Buffer;
pub use error::Error;
pub use float32::F32Bits;
