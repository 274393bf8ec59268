//! Background-aware object extraction and canvas composition for raster
//! images: background classification with a per-channel tolerance,
//! noise-tolerant bounding-box detection, edge-mask-guided extraction,
//! square-canvas padding, and alpha-to-solid compositing.

pub mod background;
pub mod buffer;
pub mod crop;
pub mod edges;
pub mod image_tools;
pub mod media;
pub mod pixel;

pub use media::is_image;
