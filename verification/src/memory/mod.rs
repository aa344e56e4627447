//! Device-memory bookkeeping.
use vstd::prelude::*;

pub mod align;
pub mod types;
pub mod chunk;
pub mod manager;
pub mod block;

pub use self::align::{align_down, align_up};
pub use self::chunk::{Chunk, CHUNK_SIZE};
pub use self::manager::{_stride, AllocStep, FlushRange, Limits, Memory, SoloInfo};
pub use self::types::{Block, BlockInfo, Lifetime, Linearity, MemoryRequirements, MemoryType};
