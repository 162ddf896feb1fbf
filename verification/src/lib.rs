//! Verified core of a small Vulkan game engine: the asset registry and its
//! path handling, the GPU selection and swapchain planning rules, the
//! frame-in-flight ring, renderer tables and the editor state machine.

pub mod assets;
pub mod gui;
pub mod paths;
pub mod renderer;
