//! Plain descriptions of memory types, blocks and allocation lifetimes.
use vstd::prelude::*;

verus! {

/// Memory property flag: the memory is local to the device.
pub const MEMORY_PROPERTY_DEVICE_LOCAL: u32 = 0x1;
/// Memory property flag: the host can map the memory.
pub const MEMORY_PROPERTY_HOST_VISIBLE: u32 = 0x2;
/// Memory property flag: host writes need no explicit flush.
pub const MEMORY_PROPERTY_HOST_COHERENT: u32 = 0x4;
/// Memory property flag: host accesses are cached.
pub const MEMORY_PROPERTY_HOST_CACHED: u32 = 0x8;
/// Memory property flag: the memory may be allocated lazily.
pub const MEMORY_PROPERTY_LAZILY_ALLOCATED: u32 = 0x10;

/// Buffer usage flag: the buffer is the source of a transfer.
pub const BUFFER_USAGE_TRANSFER_SRC: u32 = 0x1;
/// Buffer usage flag: the buffer is the destination of a transfer.
pub const BUFFER_USAGE_TRANSFER_DST: u32 = 0x2;
/// Buffer usage flag: uniform texel buffer.
pub const BUFFER_USAGE_UNIFORM_TEXEL_BUFFER: u32 = 0x4;
/// Buffer usage flag: storage texel buffer.
pub const BUFFER_USAGE_STORAGE_TEXEL_BUFFER: u32 = 0x8;
/// Buffer usage flag: uniform buffer.
pub const BUFFER_USAGE_UNIFORM_BUFFER: u32 = 0x10;
/// Buffer usage flag: storage buffer.
pub const BUFFER_USAGE_STORAGE_BUFFER: u32 = 0x20;
/// Buffer usage flag: index buffer.
pub const BUFFER_USAGE_INDEX_BUFFER: u32 = 0x40;
/// Buffer usage flag: vertex buffer.
pub const BUFFER_USAGE_VERTEX_BUFFER: u32 = 0x80;

/// How long an allocation lives.
#[derive(Debug, Clone, Copy, PartialEq, Eq, Structural)]
pub enum Lifetime {
    /// Never freed; placed efficiently at the top of a chunk.
    Permanent,
    /// Freed when its block is dropped.
    Temporary,
}

/// Whether a resource is laid out linearly (buffers) or not (optimal-tiling images).
/// The two kinds are kept in separate chunks.
#[derive(Debug, Clone, Copy, PartialEq, Eq, Structural)]
pub enum Linearity {
    Linear,
    Nonlinear,
}

impl Linearity {
    /// Index of the chunk list for this linearity (0 for linear, 1 for nonlinear).
    pub fn index(&self) -> (r: usize)
        ensures
            r == self.spec_index(),
    {
        match self {
            Linearity::Linear => 0,
            Linearity::Nonlinear => 1,
        }
    }

    pub open spec fn spec_index(&self) -> usize {
        match self {
            Linearity::Linear => 0,
            Linearity::Nonlinear => 1,
        }
    }

    /// The name under which the linearity is shown.
    pub fn label(&self) -> (r: &'static str)
        ensures
            *self == Linearity::Linear ==> r@ == "Linear"@,
            *self == Linearity::Nonlinear ==> r@ == "Nonlinear"@,
    {
        match self {
            Linearity::Linear => "Linear",
            Linearity::Nonlinear => "Nonlinear",
        }
    }
}

/// One memory type of the physical device.
#[derive(Debug, Clone, Copy, PartialEq, Eq, Structural)]
pub struct MemoryType {
    /// Memory property flags (`MEMORY_PROPERTY_*`).
    pub property_flags: u32,
    /// The heap this type allocates from.
    pub heap_index: u32,
}

/// What the driver requires of the memory behind a resource.
#[derive(Debug, Clone, Copy, PartialEq, Eq, Structural)]
pub struct MemoryRequirements {
    pub size: u64,
    pub alignment: u64,
    /// Bit `i` is set when memory type `i` may back the resource.
    pub memory_type_bits: u32,
}

/// A block recorded in a chunk, with the reason it was allocated (for logging).
pub struct BlockInfo {
    pub offset: u64,
    pub size: u64,
    pub reason: String,
}

/// The abstract value of a `BlockInfo`.
pub struct BlockRecord {
    pub offset: u64,
    pub size: u64,
    pub reason: Seq<char>,
}

impl View for BlockInfo {
    type V = BlockRecord;

    open spec fn view(&self) -> BlockRecord {
        BlockRecord { offset: self.offset, size: self.size, reason: self.reason@ }
    }
}

impl BlockInfo {
    /// One past the last byte of the block.
    pub fn end(&self) -> (r: u64)
        requires
            self.offset + self.size <= u64::MAX,
        ensures
            r == self.offset + self.size,
    {
        self.offset + self.size
    }
}

/// A block of device memory handed out to a resource. It is neither `Copy` nor
/// `Clone`: giving it back to the manager with `Memory::release` consumes it, so a
/// block cannot be given back twice and its range handed out while still in use.
/// Dropping a block does not give its space back; that is deliberate, as the release
/// is an explicit, checked step.
#[derive(Debug, PartialEq, Eq, Structural)]
pub struct Block {
    /// Handle of the device memory of the chunk.
    pub memory: u64,
    /// Whether the block can be written from the host (its chunk is mapped).
    pub host_visible: bool,
    pub offset_in_chunk: u64,
    pub size: u64,
    /// Offset from the start of the block up to which byte-stream writes have come.
    pub stdio_write_offset: u64,
    pub memory_type_index: u32,
    /// Whether host writes need no flush.
    pub is_coherent: bool,
    /// Alignment of each array element stored in the block.
    pub element_alignment: u64,
    /// Chunk list of the block's chunk.
    pub linearity: Linearity,
    /// Position of the block's chunk in its list.
    pub chunk_number: usize,
}

} // verus!
