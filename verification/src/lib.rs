//! Verified planning logic of a deferred Vulkan renderer: the device-memory
//! sub-allocator, queue-family selection, device-suitability checks, surface
//! and pipeline decisions. Everything here works on plain values; the calls
//! that talk to the graphics driver live outside this crate's verified core.
use vstd::prelude::*;

pub mod config;
pub mod device;
pub mod error;
pub mod frame;
pub mod image;
pub mod instance;
pub mod memory;
pub mod names;
pub mod pipeline;
pub mod queue_indices;
pub mod requirements;
pub mod suitability;
pub mod surface;
pub mod text;

pub use crate::config::{Config, Tonemapper, VulkanLogLevel};
pub use crate::error::{Error, Unsuitable};
pub use crate::image::ImageWrapType;
pub use crate::memory::{Block, BlockInfo, Lifetime, Linearity, Memory, CHUNK_SIZE};
pub use crate::pipeline::{BlendMode, DepthHandling, Pass};
pub use crate::queue_indices::QueueIndices;
pub use crate::requirements::DeviceRequirements;
pub use crate::frame::Timestamp;

verus! {

/// Widest render target that the memory chunks are sized for (4K).
pub const MAX_WIDTH: u32 = 3840;
/// Tallest render target that the memory chunks are sized for (4K).
pub const MAX_HEIGHT: u32 = 2160;

} // verus!
