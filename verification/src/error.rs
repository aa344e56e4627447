//! Errors reported by the renderer's planning logic.
use vstd::prelude::*;
use vstd::string::StringExecFns;

use crate::names::{feature_string, feature_text, format_name, format_name_string};
use crate::text::{decimal, push_decimal};

verus! {

/// Why a physical device cannot be used.
#[derive(Debug, Clone, PartialEq, Eq)]
pub enum Unsuitable {
    /// The device lacks a required feature.
    MissingFeature,
    /// A required format lacks features in linear tiling.
    LinearTiling { format: u32, required: u32, supported: u32 },
    /// A required format lacks features in optimal tiling.
    OptimalTiling { format: u32, required: u32, supported: u32 },
    /// A required format lacks features in buffers.
    BufferFeatures { format: u32, required: u32, supported: u32 },
    /// The device-local heaps together are too small.
    NotEnoughMemory,
    /// A required extension is present at a lower version than required.
    ExtensionTooOld { name: String, available: u32, required: u32 },
    /// A required extension is missing.
    ExtensionMissing { name: String },
    /// The push-constant area is smaller than required.
    PushConstantsTooSmall { available: u32, required: u32 },
    /// The device cannot render to a single color attachment.
    NoColorAttachment,
    /// The device does not support a single framebuffer layer.
    NoFramebufferLayer,
    /// No queue family can present to the surface.
    NoPresentQueue,
    /// No queue family supports graphics.
    NoGraphicsQueue,
    /// No queue family supports transfers.
    NoTransferQueue,
    /// Graphics has to share the transfer family, which has too few queues.
    NotEnoughQueues,
}

/// The abstract value of an `Unsuitable`, with names as character sequences.
pub enum UnsuitableView {
    MissingFeature,
    LinearTiling { format: u32, required: u32, supported: u32 },
    OptimalTiling { format: u32, required: u32, supported: u32 },
    BufferFeatures { format: u32, required: u32, supported: u32 },
    NotEnoughMemory,
    ExtensionTooOld { name: Seq<char>, available: u32, required: u32 },
    ExtensionMissing { name: Seq<char> },
    PushConstantsTooSmall { available: u32, required: u32 },
    NoColorAttachment,
    NoFramebufferLayer,
    NoPresentQueue,
    NoGraphicsQueue,
    NoTransferQueue,
    NotEnoughQueues,
}

impl View for Unsuitable {
    type V = UnsuitableView;

    open spec fn view(&self) -> UnsuitableView {
        match self {
            Unsuitable::MissingFeature => UnsuitableView::MissingFeature,
            Unsuitable::LinearTiling { format, required, supported } =>
                UnsuitableView::LinearTiling { format: *format, required: *required, supported: *supported },
            Unsuitable::OptimalTiling { format, required, supported } =>
                UnsuitableView::OptimalTiling { format: *format, required: *required, supported: *supported },
            Unsuitable::BufferFeatures { format, required, supported } =>
                UnsuitableView::BufferFeatures { format: *format, required: *required, supported: *supported },
            Unsuitable::NotEnoughMemory => UnsuitableView::NotEnoughMemory,
            Unsuitable::ExtensionTooOld { name, available, required } =>
                UnsuitableView::ExtensionTooOld { name: name@, available: *available, required: *required },
            Unsuitable::ExtensionMissing { name } => UnsuitableView::ExtensionMissing { name: name@ },
            Unsuitable::PushConstantsTooSmall { available, required } =>
                UnsuitableView::PushConstantsTooSmall { available: *available, required: *required },
            Unsuitable::NoColorAttachment => UnsuitableView::NoColorAttachment,
            Unsuitable::NoFramebufferLayer => UnsuitableView::NoFramebufferLayer,
            Unsuitable::NoPresentQueue => UnsuitableView::NoPresentQueue,
            Unsuitable::NoGraphicsQueue => UnsuitableView::NoGraphicsQueue,
            Unsuitable::NoTransferQueue => UnsuitableView::NoTransferQueue,
            Unsuitable::NotEnoughQueues => UnsuitableView::NotEnoughQueues,
        }
    }
}

/// Errors of the renderer.
#[derive(Debug, Clone, PartialEq, Eq)]
pub enum Error {
    General(String),
    /// A required instance extension is not available; holds its name.
    MissingExtensions(String),
    NoSuitableDevice,
    DeviceNotSuitable(Unsuitable),
    OutOfGraphicsMemory,
    MemoryNotHostWritable,
    NoSuitableSurfaceFormat,
    WrongVertexType,
    UnsupportedFormat,
    SwapchainTimeout,
}

/// The abstract value of an `Error`.
pub enum ErrorView {
    General(Seq<char>),
    MissingExtensions(Seq<char>),
    NoSuitableDevice,
    DeviceNotSuitable(UnsuitableView),
    OutOfGraphicsMemory,
    MemoryNotHostWritable,
    NoSuitableSurfaceFormat,
    WrongVertexType,
    UnsupportedFormat,
    SwapchainTimeout,
}

impl View for Error {
    type V = ErrorView;

    open spec fn view(&self) -> ErrorView {
        match self {
            Error::General(s) => ErrorView::General(s@),
            Error::MissingExtensions(s) => ErrorView::MissingExtensions(s@),
            Error::NoSuitableDevice => ErrorView::NoSuitableDevice,
            Error::DeviceNotSuitable(u) => ErrorView::DeviceNotSuitable(u@),
            Error::OutOfGraphicsMemory => ErrorView::OutOfGraphicsMemory,
            Error::MemoryNotHostWritable => ErrorView::MemoryNotHostWritable,
            Error::NoSuitableSurfaceFormat => ErrorView::NoSuitableSurfaceFormat,
            Error::WrongVertexType => ErrorView::WrongVertexType,
            Error::UnsupportedFormat => ErrorView::UnsupportedFormat,
            Error::SwapchainTimeout => ErrorView::SwapchainTimeout,
        }
    }
}

/// The message for a device that cannot be used.
pub open spec fn unsuitable_text(u: UnsuitableView) -> Seq<char> {
    match u {
        UnsuitableView::MissingFeature => "Device is missing a required feature"@,
        UnsuitableView::NotEnoughMemory => "Not enough memory"@,
        UnsuitableView::NoColorAttachment => "Device does not support a single color attachment"@,
        UnsuitableView::NoFramebufferLayer => "Device does not support a single framebuffer layer"@,
        UnsuitableView::NoPresentQueue => "No suitable presentation queue found"@,
        UnsuitableView::NoGraphicsQueue => "No suitable graphics queue found"@,
        UnsuitableView::NoTransferQueue => "No suitable transfer queue found"@,
        UnsuitableView::NotEnoughQueues => "Not enough queues for two graphics queues"@,
        UnsuitableView::LinearTiling { format, required, supported } => "Device does not support format "@ + format_name(format)
            + " in linear tiling for "@ + feature_text(required) + " (supports "@ + feature_text(supported) + ")"@,
        UnsuitableView::OptimalTiling { format, required, supported } => "Device does not support format "@ + format_name(format)
            + " in optimal tiling for "@ + feature_text(required) + " (supports "@ + feature_text(supported) + ")"@,
        UnsuitableView::BufferFeatures { format, required, supported } => "Device does not support format "@ + format_name(format)
            + " in buffers for "@ + feature_text(required) + " (supports "@ + feature_text(supported) + ")"@,
        UnsuitableView::ExtensionTooOld { name, available, required } => "Extension "@ + name + " version "@
            + decimal(available as nat) + " is too low ("@ + decimal(required as nat) + " is required)"@,
        UnsuitableView::ExtensionMissing { name } => "Extension "@ + name + " is missing"@,
        UnsuitableView::PushConstantsTooSmall { available, required } => "Max push constants size is "@
            + decimal(available as nat) + " (required is "@ + decimal(required as nat) + ")"@,
    }
}

/// The message for an error.
pub open spec fn error_text(e: ErrorView) -> Seq<char> {
    match e {
        ErrorView::General(s) => "General Error: '"@ + s + "'"@,
        ErrorView::MissingExtensions(s) => "Vulkan Extensions Missing: '"@ + s + "'"@,
        ErrorView::DeviceNotSuitable(u) => "Device not suitable: '"@ + unsuitable_text(u) + "'"@,
        ErrorView::NoSuitableDevice => "No Suitable Graphics Device Found"@,
        ErrorView::OutOfGraphicsMemory => "Out of graphics memory (or memory type requested does not exist)"@,
        ErrorView::MemoryNotHostWritable => "Device memory is not host writable"@,
        ErrorView::NoSuitableSurfaceFormat => "No Suitable Surface Format Found"@,
        ErrorView::WrongVertexType => "Mesh has wrong vertex type"@,
        ErrorView::UnsupportedFormat => "Unsupported or indeterminate file format"@,
        ErrorView::SwapchainTimeout => "Swapchain acquire timed out (perhaps took longer than 4 seconds)"@,
    }
}

impl Unsuitable {
    /// The message for this reason.
    pub fn message(&self) -> (r: String)
        ensures
            r@ == unsuitable_text(self@),
    {
        match self {
            Unsuitable::MissingFeature => "Device is missing a required feature".to_owned(),
            Unsuitable::NotEnoughMemory => "Not enough memory".to_owned(),
            Unsuitable::NoColorAttachment => "Device does not support a single color attachment".to_owned(),
            Unsuitable::NoFramebufferLayer => "Device does not support a single framebuffer layer".to_owned(),
            Unsuitable::NoPresentQueue => "No suitable presentation queue found".to_owned(),
            Unsuitable::NoGraphicsQueue => "No suitable graphics queue found".to_owned(),
            Unsuitable::NoTransferQueue => "No suitable transfer queue found".to_owned(),
            Unsuitable::NotEnoughQueues => "Not enough queues for two graphics queues".to_owned(),
            Unsuitable::LinearTiling { format, required, supported } => {
                let mut s = "Device does not support format ".to_owned();
                let f = format_name_string(*format);
                s.append(f.as_str());
                s.append(" in linear tiling for ");
                let req = feature_string(*required);
                s.append(req.as_str());
                s.append(" (supports ");
                let sup = feature_string(*supported);
                s.append(sup.as_str());
                s.append(")");
                s
            },
            Unsuitable::OptimalTiling { format, required, supported } => {
                let mut s = "Device does not support format ".to_owned();
                let f = format_name_string(*format);
                s.append(f.as_str());
                s.append(" in optimal tiling for ");
                let req = feature_string(*required);
                s.append(req.as_str());
                s.append(" (supports ");
                let sup = feature_string(*supported);
                s.append(sup.as_str());
                s.append(")");
                s
            },
            Unsuitable::BufferFeatures { format, required, supported } => {
                let mut s = "Device does not support format ".to_owned();
                let f = format_name_string(*format);
                s.append(f.as_str());
                s.append(" in buffers for ");
                let req = feature_string(*required);
                s.append(req.as_str());
                s.append(" (supports ");
                let sup = feature_string(*supported);
                s.append(sup.as_str());
                s.append(")");
                s
            },
            Unsuitable::ExtensionTooOld { name, available, required } => {
                let mut s = "Extension ".to_owned();
                s.append(name.as_str());
                s.append(" version ");
                push_decimal(&mut s, *available as u64);
                s.append(" is too low (");
                push_decimal(&mut s, *required as u64);
                s.append(" is required)");
                s
            },
            Unsuitable::ExtensionMissing { name } => {
                let mut s = "Extension ".to_owned();
                s.append(name.as_str());
                s.append(" is missing");
                s
            },
            Unsuitable::PushConstantsTooSmall { available, required } => {
                let mut s = "Max push constants size is ".to_owned();
                push_decimal(&mut s, *available as u64);
                s.append(" (required is ");
                push_decimal(&mut s, *required as u64);
                s.append(")");
                s
            },
        }
    }
}

impl Error {
    /// The message for this error.
    pub fn message(&self) -> (r: String)
        ensures
            r@ == error_text(self@),
    {
        match self {
            Error::General(g) => {
                let mut s = "General Error: '".to_owned();
                s.append(g.as_str());
                s.append("'");
                s
            },
            Error::MissingExtensions(g) => {
                let mut s = "Vulkan Extensions Missing: '".to_owned();
                s.append(g.as_str());
                s.append("'");
                s
            },
            Error::DeviceNotSuitable(u) => {
                let mut s = "Device not suitable: '".to_owned();
                let m = u.message();
                s.append(m.as_str());
                s.append("'");
                s
            },
            Error::NoSuitableDevice => "No Suitable Graphics Device Found".to_owned(),
            Error::OutOfGraphicsMemory => "Out of graphics memory (or memory type requested does not exist)".to_owned(),
            Error::MemoryNotHostWritable => "Device memory is not host writable".to_owned(),
            Error::NoSuitableSurfaceFormat => "No Suitable Surface Format Found".to_owned(),
            Error::WrongVertexType => "Mesh has wrong vertex type".to_owned(),
            Error::UnsupportedFormat => "Unsupported or indeterminate file format".to_owned(),
            Error::SwapchainTimeout => "Swapchain acquire timed out (perhaps took longer than 4 seconds)".to_owned(),
        }
    }
}

} // verus!
