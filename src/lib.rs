//! Change detection, wire framing, connection decisions and frame buffering
//! for a low-latency screen-sharing pipeline.
pub mod buffer;
pub mod compression;
pub mod config;
pub mod detector;
pub mod protocol;
pub mod raster;
pub mod resilience;
pub mod transport;
pub mod types;
