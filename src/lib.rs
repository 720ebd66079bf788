//! Animation engine for an addressable LED strip: traveling light particles
//! composited onto per-segment pixel buffers that fade toward a background color.

pub mod color;
pub mod particle;
pub mod segment;
pub mod light;
pub mod frame;
pub mod params;
