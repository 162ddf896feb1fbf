//! The renderer's decisions: device and queue selection, memory types,
//! swapchain planning, the frame-in-flight ring and the geometry tables
//! that the draw code uses.

pub mod context;
pub mod debug;
pub mod frame;
pub mod memory;
pub mod mesh;
pub mod shadow;
pub mod swapchain;
