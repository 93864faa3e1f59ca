//! Image-processing core of a local photo editor: decoding with a fallback
//! chain, a bounded LRU preview cache, aspect-preserving resizing, and a
//! non-destructive color-grading engine in fixed-point arithmetic.

pub mod adjust;
pub mod cache;
pub mod channels;
pub mod codec;
pub mod decode;
pub mod demosaic;
pub mod dims;
pub mod engine;
pub mod fixed;
pub mod gpustate;
pub mod img;
pub mod models;
pub mod recipe;
pub mod registry;
pub mod render;
pub mod resize;
