//! How images of each kind are created and viewed.
use vstd::prelude::*;

verus! {

/// Image usage flag: depth/stencil attachment.
pub const IMAGE_USAGE_DEPTH_STENCIL_ATTACHMENT: u32 = 0x20;

/// The kinds of image the renderer handles (2D, one MIP level, one sample).
#[derive(Debug, Clone, Copy, PartialEq, Eq, Structural)]
pub enum ImageWrapType {
    Depth,
    Standard,
    Cubemap,
    Swapchain,
}

/// Image tiling.
#[derive(Debug, Clone, Copy, PartialEq, Eq, Structural)]
pub enum ImageTiling {
    Optimal,
    Linear,
}

impl ImageWrapType {
    /// The usage and tiling an image is created with: depth images are always
    /// depth/stencil attachments with optimal tiling; other kinds keep what was asked.
    pub fn creation_usage_tiling(&self, usage: u32, tiling: ImageTiling) -> (r: (u32, ImageTiling))
        ensures
            *self == ImageWrapType::Depth ==> r == (usage | IMAGE_USAGE_DEPTH_STENCIL_ATTACHMENT, ImageTiling::Optimal),
            *self != ImageWrapType::Depth ==> r == (usage, tiling),
    {
        match self {
            ImageWrapType::Depth => (usage | IMAGE_USAGE_DEPTH_STENCIL_ATTACHMENT, ImageTiling::Optimal),
            _ => (usage, tiling),
        }
    }

    /// Cube maps have six array layers, other images one.
    pub fn array_layers(&self) -> (r: u32)
        ensures
            r == (if *self == ImageWrapType::Cubemap { 6u32 } else { 1u32 }),
    {
        match self {
            ImageWrapType::Cubemap => 6,
            _ => 1,
        }
    }

    /// Whether the image is created cube compatible and viewed as a cube.
    pub fn is_cube(&self) -> (r: bool)
        ensures
            r == (*self == ImageWrapType::Cubemap),
    {
        match self {
            ImageWrapType::Cubemap => true,
            _ => false,
        }
    }

    /// Whether views and copies address the depth aspect (otherwise the color aspect).
    pub fn depth_aspect(&self) -> (r: bool)
        ensures
            r == (*self == ImageWrapType::Depth),
    {
        match self {
            ImageWrapType::Depth => true,
            _ => false,
        }
    }
}

} // verus!
