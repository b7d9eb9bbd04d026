//! Test support for pixel buffers: a pixel-level diff engine with readable
//! reports, deterministic benchmark images, and random generation and
//! shrinking of small buffers for property-based tests.

pub mod pixel;
pub mod buffer;
pub mod text;
pub mod diff;
pub mod bench;
pub mod shrink;
