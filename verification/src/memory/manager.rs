//! The memory manager: chooses memory types, keeps the chunks of each type and
//! linearity, and routes allocations, releases and flushes to them.
//!
//! Asking the driver for device memory is not done here. When no chunk can take
//! an allocation, `allocate_device_memory` says which memory type needs a new
//! chunk; the caller allocates it and hands it back with `add_chunk` or
//! `allocate_in_new_chunk`.
use vstd::prelude::*;

use crate::error::Error;
use super::align::{is_power_of_two, lemma_power_of_two_bound};
use super::block::{block_stride, stride_ok};
use super::chunk::{allocate_spec, chunk_wf, lemma_allocation_placed, Chunk, ChunkState, CHUNK_SIZE};
use super::types::{Block, BlockRecord, Lifetime, Linearity, MemoryRequirements, MemoryType,
    BUFFER_USAGE_STORAGE_BUFFER, BUFFER_USAGE_STORAGE_TEXEL_BUFFER, BUFFER_USAGE_UNIFORM_BUFFER,
    BUFFER_USAGE_UNIFORM_TEXEL_BUFFER};

verus! {

/// The device limits that the memory manager needs.
#[derive(Debug, Clone, Copy, PartialEq, Eq, Structural)]
pub struct Limits {
    pub min_uniform_buffer_offset_alignment: u64,
    pub min_storage_buffer_offset_alignment: u64,
    pub min_texel_buffer_offset_alignment: u64,
    pub max_memory_allocation_count: u32,
}

/// A stand-alone allocation: never freed, device memory only, not mappable.
/// Meant for large render targets.
pub struct SoloInfo {
    pub memory_type_index: u32,
    pub memory_type: MemoryType,
    pub size: u64,
    pub reason: String,
}

/// The abstract value of a `SoloInfo`.
pub struct SoloRecord {
    pub memory_type_index: u32,
    pub memory_type: MemoryType,
    pub size: u64,
    pub reason: Seq<char>,
}

impl View for SoloInfo {
    type V = SoloRecord;

    open spec fn view(&self) -> SoloRecord {
        SoloRecord {
            memory_type_index: self.memory_type_index,
            memory_type: self.memory_type,
            size: self.size,
            reason: self.reason@,
        }
    }
}

/// How a memory type's property flags must relate to the requested flags.
#[derive(Debug, Clone, Copy, PartialEq, Eq, Structural)]
pub enum TypeMatch {
    /// The property flags equal the requested flags.
    Exact,
    /// The property flags include the requested flags.
    Includes,
}

/// The next step of an allocation.
#[derive(Debug, PartialEq, Eq, Structural)]
pub enum AllocStep {
    /// The block was allocated in an existing chunk.
    Allocated(Block),
    /// No chunk of this memory type exists yet: allocate device memory for one and
    /// hand it to `add_chunk`, then ask again.
    NeedFirstChunk(u32),
    /// No existing chunk of this memory type has room: allocate device memory for
    /// another and hand it to `allocate_in_new_chunk`.
    NeedChunk(u32),
}

/// Memory type `i` is allowed by the bit mask of a resource.
pub open spec fn type_allowed(bits: u32, i: int) -> bool {
    0 <= i < 32 && (bits >> (i as u32)) & 1 == 1
}

/// Property flags fit the requested flags.
pub open spec fn flags_match(property_flags: u32, flags: u32, how: TypeMatch) -> bool {
    match how {
        TypeMatch::Exact => property_flags == flags,
        TypeMatch::Includes => property_flags & flags == flags,
    }
}

/// Memory type `i` can back the resource.
pub open spec fn type_fits(types: Seq<MemoryType>, bits: u32, flags: u32, how: TypeMatch, i: int) -> bool {
    0 <= i < types.len() && type_allowed(bits, i) && flags_match(types[i].property_flags, flags, how)
}

/// The lowest memory type, from index `i` on, that can back the resource.
pub open spec fn first_fitting_type(types: Seq<MemoryType>, bits: u32, flags: u32, how: TypeMatch, i: int) -> Option<u32>
    decreases types.len() - i,
{
    if i < 0 || i >= types.len() {
        None
    } else if type_fits(types, bits, flags, how, i) {
        Some(i as u32)
    } else {
        first_fitting_type(types, bits, flags, how, i + 1)
    }
}

/// The memory type chosen for a resource: the lowest allowed type whose flags equal
/// the requested ones, else the lowest allowed type whose flags include them.
pub open spec fn chosen_type(types: Seq<MemoryType>, bits: u32, flags: u32) -> Option<u32> {
    match first_fitting_type(types, bits, flags, TypeMatch::Exact, 0) {
        Some(i) => Some(i),
        None => first_fitting_type(types, bits, flags, TypeMatch::Includes, 0),
    }
}

/// The larger of two numbers.
pub open spec fn max_u64(a: u64, b: u64) -> u64 {
    if a >= b { a } else { b }
}

/// The alignment of array elements in a buffer of the given usage: at least 1, the
/// uniform-buffer offset alignment for uniform (texel) buffers, the storage-buffer
/// offset alignment for storage (texel) buffers, and the texel-buffer offset
/// alignment for texel buffers, whichever is largest.
pub open spec fn element_alignment_spec(limits: Limits, buffer_usage: Option<u32>) -> u64 {
    match buffer_usage {
        None => 1,
        Some(bu) => {
            let uniform = bu & BUFFER_USAGE_UNIFORM_BUFFER != 0 || bu & BUFFER_USAGE_UNIFORM_TEXEL_BUFFER != 0;
            let storage = bu & BUFFER_USAGE_STORAGE_BUFFER != 0 || bu & BUFFER_USAGE_STORAGE_TEXEL_BUFFER != 0;
            let texel = bu & BUFFER_USAGE_UNIFORM_TEXEL_BUFFER != 0 || bu & BUFFER_USAGE_STORAGE_TEXEL_BUFFER != 0;
            let a = if uniform { limits.min_uniform_buffer_offset_alignment } else { 1 };
            let b = if storage { limits.min_storage_buffer_offset_alignment } else { 1 };
            let c = if texel { limits.min_texel_buffer_offset_alignment } else { 1 };
            max_u64(1, max_u64(a, max_u64(b, c)))
        },
    }
}

/// The buffer usage asks for uniform-buffer offset alignment (uniform and uniform
/// texel buffers).
pub open spec fn uses_uniform(bu: u32) -> bool {
    bu & BUFFER_USAGE_UNIFORM_BUFFER != 0 || bu & BUFFER_USAGE_UNIFORM_TEXEL_BUFFER != 0
}

/// The buffer usage asks for storage-buffer offset alignment (storage and storage
/// texel buffers).
pub open spec fn uses_storage(bu: u32) -> bool {
    bu & BUFFER_USAGE_STORAGE_BUFFER != 0 || bu & BUFFER_USAGE_STORAGE_TEXEL_BUFFER != 0
}

/// The buffer usage asks for texel-buffer offset alignment (either kind of texel buffer).
pub open spec fn uses_texel(bu: u32) -> bool {
    bu & BUFFER_USAGE_UNIFORM_TEXEL_BUFFER != 0 || bu & BUFFER_USAGE_STORAGE_TEXEL_BUFFER != 0
}

/// `a` is the least alignment that meets every device limit the usage is subject to:
/// it is at least 1 and at least each applicable limit, and it is 1 or one of them.
pub open spec fn alignment_covers(limits: Limits, usage: Option<u32>, a: u64) -> bool {
    &&& a >= 1
    &&& usage matches Some(bu) ==> {
        &&& uses_uniform(bu) ==> a >= limits.min_uniform_buffer_offset_alignment
        &&& uses_storage(bu) ==> a >= limits.min_storage_buffer_offset_alignment
        &&& uses_texel(bu) ==> a >= limits.min_texel_buffer_offset_alignment
    }
    &&& a == 1 || (usage matches Some(bu) && (
        (uses_uniform(bu) && a == limits.min_uniform_buffer_offset_alignment)
        || (uses_storage(bu) && a == limits.min_storage_buffer_offset_alignment)
        || (uses_texel(bu) && a == limits.min_texel_buffer_offset_alignment)))
}

/// The element alignment of a buffer is the least alignment meeting every offset
/// limit that its usage is subject to (uniform, storage, texel), and 1 without usage.
pub proof fn lemma_element_alignment_covers(limits: Limits, usage: Option<u32>)
    ensures
        alignment_covers(limits, usage, element_alignment_spec(limits, usage)),
        usage is None ==> element_alignment_spec(limits, usage) == 1,
{
}

/// The device's offset-alignment limits are powers of two, as Vulkan requires.
pub open spec fn limits_are_powers_of_two(limits: Limits) -> bool {
    &&& is_power_of_two(limits.min_uniform_buffer_offset_alignment)
    &&& is_power_of_two(limits.min_storage_buffer_offset_alignment)
    &&& is_power_of_two(limits.min_texel_buffer_offset_alignment)
}

/// Of two powers of two, the larger is a multiple of the smaller.
proof fn lemma_power_of_two_divides(a: u64, b: u64)
    requires
        is_power_of_two(a),
        is_power_of_two(b),
        a <= b,
    ensures
        b % a == 0,
{
    assert(a != 0 && a & ((a - 1) as u64) == 0 && b != 0 && b & ((b - 1) as u64) == 0 && a <= b
        ==> b & ((a - 1) as u64) == 0) by (bit_vector);
    super::align::lemma_low_bits_are_mod(b, a);
}

/// A multiple of a multiple of `l` is a multiple of `l`.
proof fn lemma_multiple_of_multiple(st: int, e: int, l: int)
    requires
        st % e == 0,
        e % l == 0,
        e > 0,
        l > 0,
    ensures
        st % l == 0,
{
    vstd::arithmetic::div_mod::lemma_fundamental_div_mod(st, e);
    vstd::arithmetic::div_mod::lemma_fundamental_div_mod(e, l);
    let k = st / e;
    let m = e / l;
    assert(st == (k * m) * l) by (nonlinear_arith)
        requires st == e * k, e == l * m;
    vstd::arithmetic::div_mod::lemma_mod_multiples_basic(k * m, l);
}

/// The distance between array elements in a buffer is at least the element size, less
/// than one alignment step more, and, when the device's limits are powers of two (as
/// Vulkan requires), a multiple of every offset limit that the buffer's usage is
/// subject to: each element starts at an offset the device accepts.
pub proof fn lemma_stride_meets_limits(limits: Limits, usage: Option<u32>, size_one: int)
    requires
        size_one >= 1,
        limits_are_powers_of_two(limits),
    ensures
        ({
            let ea = element_alignment_spec(limits, usage);
            let st = stride_spec(size_one, ea as int);
            &&& size_one <= st < size_one + ea
            &&& st % (ea as int) == 0
            &&& usage matches Some(bu) ==> {
                &&& uses_uniform(bu) ==> st % (limits.min_uniform_buffer_offset_alignment as int) == 0
                &&& uses_storage(bu) ==> st % (limits.min_storage_buffer_offset_alignment as int) == 0
                &&& uses_texel(bu) ==> st % (limits.min_texel_buffer_offset_alignment as int) == 0
            }
        }),
{
    let ea = element_alignment_spec(limits, usage);
    lemma_element_alignment_covers(limits, usage);
    assert(is_power_of_two(ea)) by {
        assert(is_power_of_two(1u64)) by (bit_vector);
    }
    if ea > 1 {
        super::align::lemma_round_up(size_one, ea as int);
    } else {
        assert(size_one % 1 == 0);
    }
    let st = stride_spec(size_one, ea as int);
    if let Some(bu) = usage {
        lemma_power_of_two_bound(limits.min_uniform_buffer_offset_alignment);
        lemma_power_of_two_bound(limits.min_storage_buffer_offset_alignment);
        lemma_power_of_two_bound(limits.min_texel_buffer_offset_alignment);
        if uses_uniform(bu) {
            lemma_power_of_two_divides(limits.min_uniform_buffer_offset_alignment, ea);
            lemma_multiple_of_multiple(st, ea as int, limits.min_uniform_buffer_offset_alignment as int);
        }
        if uses_storage(bu) {
            lemma_power_of_two_divides(limits.min_storage_buffer_offset_alignment, ea);
            lemma_multiple_of_multiple(st, ea as int, limits.min_storage_buffer_offset_alignment as int);
        }
        if uses_texel(bu) {
            lemma_power_of_two_divides(limits.min_texel_buffer_offset_alignment, ea);
            lemma_multiple_of_multiple(st, ea as int, limits.min_texel_buffer_offset_alignment as int);
        }
    }
}

/// Distance between consecutive array elements of `size_one` bytes each, aligned to
/// `element_alignment`: the element size rounded up to a multiple of the alignment.
pub open spec fn stride_spec(size_one: int, element_alignment: int) -> int {
    if element_alignment <= 1 {
        size_one
    } else {
        ((size_one + element_alignment - 1) / element_alignment) * element_alignment
    }
}

/// Distance between consecutive array elements of `size_one` bytes each, aligned to
/// `element_alignment`. An element size of zero with an alignment above one is not
/// a valid input (the computation underflows).
pub fn _stride(size_one: usize, element_alignment: usize) -> (r: usize)
    requires
        element_alignment <= 1 || size_one >= 1,
        stride_spec(size_one as int, element_alignment as int) <= usize::MAX,
    ensures
        r == stride_spec(size_one as int, element_alignment as int),
{
    if element_alignment <= 1 {
        size_one
    } else {
        let q = (size_one - 1) / element_alignment;
        proof {
            let s = size_one as int;
            let a = element_alignment as int;
            assert((s - 1) / a + 1 == (s + a - 1) / a) by (nonlinear_arith)
                requires a > 1, s >= 1;
            assert(a * (1 + q) == ((s + a - 1) / a) * a) by (nonlinear_arith)
                requires q == (s - 1) / a, (s - 1) / a + 1 == (s + a - 1) / a;
        }
        element_alignment * (1 + q)
    }
}

/// What trying the chunks of one list in turn does: each chunk from `k` on is asked
/// until one hands out a block.
pub open spec fn try_chunks(
    cs: Seq<ChunkState>,
    k: int,
    size: u64,
    alignment: u64,
    element_alignment: u64,
    lifetime: Lifetime,
    reason: Seq<char>,
) -> (Seq<ChunkState>, Option<Block>)
    decreases cs.len() - k,
{
    if k < 0 || k >= cs.len() {
        (cs, None)
    } else {
        let (c2, r) = allocate_spec(cs[k], size, alignment, element_alignment, lifetime, reason);
        let cs2 = cs.update(k, c2);
        match r {
            Some(b) => (cs2, Some(b)),
            None => try_chunks(cs2, k + 1, size, alignment, element_alignment, lifetime, reason),
        }
    }
}

/// Trying the chunks in turn asks each chunk from `k` on, in order, until one hands out
/// a block: the block comes from the first chunk that has room, every chunk before it
/// was asked and refused, and no chunk after it is touched; when none has room, every
/// chunk from `k` on was asked and refused. Chunks before `k` are left alone.
pub proof fn lemma_try_chunks_in_order(
    cs: Seq<ChunkState>,
    k: int,
    size: u64,
    alignment: u64,
    element_alignment: u64,
    lifetime: Lifetime,
    reason: Seq<char>,
)
    requires
        0 <= k <= cs.len(),
    ensures
        ({
            let out = try_chunks(cs, k, size, alignment, element_alignment, lifetime, reason).0;
            let res = try_chunks(cs, k, size, alignment, element_alignment, lifetime, reason).1;
            &&& out.len() == cs.len()
            &&& forall|i: int| 0 <= i < k ==> out[i] == cs[i]
            &&& res is None ==> forall|i: int| k <= i < cs.len() ==> {
                &&& (#[trigger] allocate_spec(cs[i], size, alignment, element_alignment, lifetime, reason)).1 is None
                &&& out[i] == allocate_spec(cs[i], size, alignment, element_alignment, lifetime, reason).0
            }
            &&& res matches Some(b) ==> exists|j: int| {
                &&& k <= j < cs.len()
                &&& #[trigger] allocate_spec(cs[j], size, alignment, element_alignment, lifetime, reason)
                    == (out[j], Some(b))
                &&& forall|i: int| k <= i < j ==> {
                    &&& (#[trigger] allocate_spec(cs[i], size, alignment, element_alignment, lifetime, reason)).1
                        is None
                    &&& out[i] == allocate_spec(cs[i], size, alignment, element_alignment, lifetime, reason).0
                }
                &&& forall|i: int| j < i < cs.len() ==> out[i] == cs[i]
            }
        }),
    decreases cs.len() - k,
{
    if k < cs.len() {
        let (c2, r) = allocate_spec(cs[k], size, alignment, element_alignment, lifetime, reason);
        let cs2 = cs.update(k, c2);
        if r is None {
            lemma_try_chunks_in_order(cs2, k + 1, size, alignment, element_alignment, lifetime, reason);
            let out = try_chunks(cs2, k + 1, size, alignment, element_alignment, lifetime, reason).0;
            assert forall|i: int| k + 1 <= i < cs.len() implies cs2[i] == cs[i] by {}
            if let Some(b) = try_chunks(cs2, k + 1, size, alignment, element_alignment, lifetime, reason).1 {
                let j = choose|j: int| {
                    &&& k + 1 <= j < cs2.len()
                    &&& #[trigger] allocate_spec(cs2[j], size, alignment, element_alignment, lifetime, reason)
                        == (out[j], Some(b))
                    &&& forall|i: int| k + 1 <= i < j ==> {
                        &&& (#[trigger] allocate_spec(cs2[i], size, alignment, element_alignment, lifetime,
                            reason)).1 is None
                        &&& out[i] == allocate_spec(cs2[i], size, alignment, element_alignment, lifetime, reason).0
                    }
                    &&& forall|i: int| j < i < cs2.len() ==> out[i] == cs2[i]
                };
                assert(cs2[j] == cs[j]);
                assert forall|i: int| k <= i < j implies {
                    &&& (#[trigger] allocate_spec(cs[i], size, alignment, element_alignment, lifetime, reason)).1
                        is None
                    &&& out[i] == allocate_spec(cs[i], size, alignment, element_alignment, lifetime, reason).0
                } by {
                    if i > k {
                        assert(cs2[i] == cs[i]);
                        assert(allocate_spec(cs2[i], size, alignment, element_alignment, lifetime, reason).1 is None);
                    }
                }
            } else {
                assert forall|i: int| k <= i < cs.len() implies {
                    &&& (#[trigger] allocate_spec(cs[i], size, alignment, element_alignment, lifetime, reason)).1
                        is None
                    &&& out[i] == allocate_spec(cs[i], size, alignment, element_alignment, lifetime, reason).0
                } by {
                    if i > k {
                        assert(cs2[i] == cs[i]);
                        assert(allocate_spec(cs2[i], size, alignment, element_alignment, lifetime, reason).1 is None);
                    }
                }
            }
        } else {
            let out = cs2;
            assert(allocate_spec(cs[k], size, alignment, element_alignment, lifetime, reason) == (out[k], r));
        }
    }
}

/// The abstract state of the memory manager.
pub struct MemoryState {
    /// Chunks by linearity (linear, nonlinear), then memory type, then position.
    pub chunks: Seq<Seq<Seq<ChunkState>>>,
    pub memory_types: Seq<MemoryType>,
    pub limits: Limits,
    pub solos: Seq<SoloRecord>,
}

/// The chunk list of one memory type and linearity, well formed and in place.
pub open spec fn chunk_list_wf(cs: Seq<ChunkState>, l: int, t: int, mt: MemoryType) -> bool {
    forall|k: int| 0 <= k < cs.len() ==> {
        &&& chunk_wf(#[trigger] cs[k])
        &&& cs[k].linearity.spec_index() == l
        &&& cs[k].chunk_number == k
        &&& cs[k].memory_type_index == t
        &&& cs[k].memory_type == mt
    }
}

/// The chunks of a list, as abstract states.
pub open spec fn chunk_states(v: Seq<Chunk>) -> Seq<ChunkState> {
    v.map_values(|c: Chunk| c@)
}

/// The chunk lists, by linearity and memory type, as abstract states.
pub open spec fn nested_chunk_states(v: Seq<Vec<Vec<Chunk>>>) -> Seq<Seq<Seq<ChunkState>>> {
    v.map_values(|per_type: Vec<Vec<Chunk>>| per_type@.map_values(|list: Vec<Chunk>| chunk_states(list@)))
}

/// Replacing one chunk list replaces its abstract state.
proof fn lemma_nested_update(v: Seq<Vec<Vec<Chunk>>>, l: int, t: int, x: Vec<Vec<Chunk>>, list: Vec<Chunk>)
    requires
        0 <= l < v.len(),
        0 <= t < v[l]@.len(),
        x@ == v[l]@.update(t, list),
    ensures
        nested_chunk_states(v.update(l, x)) == nested_chunk_states(v).update(
            l,
            nested_chunk_states(v)[l].update(t, chunk_states(list@)),
        ),
{
    let a = nested_chunk_states(v.update(l, x));
    let b = nested_chunk_states(v).update(l, nested_chunk_states(v)[l].update(t, chunk_states(list@)));
    assert(a[l] =~= b[l]);
    assert(a =~= b);
}

/// The memory manager's data; `Memory` keeps it well formed. The chunk lists are
/// indexed by linearity and then directly by memory type, one list (possibly empty)
/// per type of the device, rather than kept in a map keyed by type: every type index
/// the device reports has its place, and an absent entry and an empty list mean the
/// same.
struct MemoryInner {
    chunks: Vec<Vec<Vec<Chunk>>>,
    memory_types: Vec<MemoryType>,
    limits: Limits,
    solos: Vec<SoloInfo>,
}

impl View for MemoryInner {
    type V = MemoryState;

    closed spec fn view(&self) -> MemoryState {
        MemoryState {
            chunks: nested_chunk_states(self.chunks@),
            memory_types: self.memory_types@,
            limits: self.limits,
            solos: self.solos@.map_values(|s: SoloInfo| s@),
        }
    }
}

/// The manager's chunk lists are laid out by linearity and memory type, and each
/// chunk is well formed and knows where it sits.
pub open spec fn memory_wf(m: MemoryState) -> bool {
    &&& m.chunks.len() == 2
    &&& forall|l: int| 0 <= l < 2 ==> (#[trigger] m.chunks[l]).len() == m.memory_types.len()
    &&& forall|l: int, t: int|
        0 <= l < 2 && 0 <= t < m.memory_types.len() ==> chunk_list_wf(
            #[trigger] m.chunks[l][t],
            l,
            t,
            m.memory_types[t],
        )
}

/// The linearity whose chunk list has index `l`.
pub open spec fn linearity_of(l: int) -> Linearity {
    if l == 0 { Linearity::Linear } else { Linearity::Nonlinear }
}

/// The state with one chunk list replaced.
pub open spec fn with_list(m: MemoryState, l: int, t: int, cs: Seq<ChunkState>) -> MemoryState {
    MemoryState { chunks: m.chunks.update(l, m.chunks[l].update(t, cs)), ..m }
}

/// The manager with the chunk of block `b` marked as written by the host.
pub open spec fn dirtied(m: MemoryState, b: Block) -> MemoryState {
    let l = b.linearity.spec_index() as int;
    let t = b.memory_type_index as int;
    let k = b.chunk_number as int;
    let cs = m.chunks[l][t];
    with_list(m, l, t, cs.update(k, ChunkState { dirty: true, ..cs[k] }))
}

/// A block of the manager belongs to one of its chunks.
pub open spec fn block_of(m: MemoryState, b: Block) -> bool {
    let l = b.linearity.spec_index() as int;
    &&& b.memory_type_index < m.memory_types.len()
    &&& b.chunk_number < m.chunks[l][b.memory_type_index as int].len()
}

impl MemoryInner {
    /// A manager for a device with the given memory types and limits, with no chunks.
    fn new(memory_types: Vec<MemoryType>, limits: Limits) -> (m: MemoryInner)
        ensures
            memory_wf(m@),
            m@.memory_types == memory_types@,
            m@.limits == limits,
            m@.solos.len() == 0,
            forall|l: int, t: int| 0 <= l < 2 && 0 <= t < memory_types@.len() ==> (#[trigger] m@.chunks[l][t]).len() == 0,
    {
        let n = memory_types.len();
        let mut chunks: Vec<Vec<Vec<Chunk>>> = Vec::new();
        let mut l: usize = 0;
        while l < 2
            invariant
                0 <= l <= 2,
                chunks@.len() == l,
                n == memory_types@.len(),
                forall|a: int| 0 <= a < l ==> (#[trigger] chunks@[a])@.len() == n,
                forall|a: int, t: int| 0 <= a < l && 0 <= t < n ==> (#[trigger] chunks@[a]@[t])@.len() == 0,
            decreases 2 - l,
        {
            let mut per_type: Vec<Vec<Chunk>> = Vec::new();
            let mut t: usize = 0;
            while t < n
                invariant
                    0 <= t <= n,
                    per_type@.len() == t,
                    forall|u: int| 0 <= u < t ==> (#[trigger] per_type@[u])@.len() == 0,
                decreases n - t,
            {
                per_type.push(Vec::new());
                t = t + 1;
            }
            chunks.push(per_type);
            l = l + 1;
        }
        let m = MemoryInner { chunks, memory_types, limits, solos: Vec::new() };
        proof {
            assert forall|l: int, t: int| 0 <= l < 2 && 0 <= t < m@.memory_types.len() implies chunk_list_wf(
                #[trigger] m@.chunks[l][t], l, t, m@.memory_types[t]) by {
                assert(m@.chunks[l][t].len() == 0);
            }
        }
        m
    }

    /// The memory types of the device.
    fn memory_types(&self) -> (r: &Vec<MemoryType>)
        ensures
            r@ == self@.memory_types,
    {
        &self.memory_types
    }

    /// The device limits.
    fn limits(&self) -> (r: Limits)
        ensures
            r == self@.limits,
    {
        self.limits
    }

    /// The stand-alone allocations recorded so far.
    fn solos(&self) -> (r: &Vec<SoloInfo>)
        ensures
            r@.map_values(|s: SoloInfo| s@) == self@.solos,
    {
        &self.solos
    }

    /// The chunks of one linearity (by list index) and memory type.
    fn chunks_of(&self, l: usize, t: usize) -> (r: &Vec<Chunk>)
        requires
            memory_wf(self@),
            l < 2,
            t < self@.memory_types.len(),
        ensures
            chunk_states(r@) == self@.chunks[l as int][t as int],
    {
        assert(self@.chunks[l as int].len() == self@.memory_types.len());
        assert(self.chunks@[l as int]@.len() == self@.chunks[l as int].len());
        &self.chunks[l][t]
    }

    /// The lowest memory type, allowed by the bit mask, whose property flags fit `flags`.
    fn find_memory_type_index_f(&self, memory_type_bits: u32, flags: u32, how: TypeMatch) -> (r: Option<u32>)
        ensures
            r == first_fitting_type(self@.memory_types, memory_type_bits, flags, how, 0),
    {
        let ghost types = self@.memory_types;
        let mut bits = memory_type_bits;
        let n = self.memory_types.len();
        let mut index: usize = 0;
        assert(memory_type_bits >> 0u32 == memory_type_bits) by (bit_vector);
        while index < n
            invariant
                types == self.memory_types@,
                n == types.len(),
                0 <= index <= n,
                first_fitting_type(types, memory_type_bits, flags, how, 0)
                    == first_fitting_type(types, memory_type_bits, flags, how, index as int),
                index < 32 ==> bits == memory_type_bits >> (index as u32),
                index >= 32 ==> bits == 0,
            decreases n - index,
        {
            let pf = self.memory_types[index].property_flags;
            let matches = match how {
                TypeMatch::Exact => pf == flags,
                TypeMatch::Includes => pf & flags == flags,
            };
            proof {
                if index >= 32 {
                    assert(bits & 1 == 0) by (bit_vector)
                        requires bits == 0u32;
                }
            }
            if bits & 1 == 1 {
                if matches {
                    return Some(index as u32);
                }
            }
            proof {
                if index < 31 {
                    let i = index as u32;
                    assert((memory_type_bits >> i) >> 1u32 == memory_type_bits >> ((i + 1) as u32)) by (bit_vector)
                        requires i < 31u32;
                } else if index == 31 {
                    assert((memory_type_bits >> 31u32) >> 1u32 == 0) by (bit_vector);
                } else {
                    assert(0u32 >> 1u32 == 0) by (bit_vector);
                }
            }
            bits = bits >> 1;
            index = index + 1;
        }
        None
    }

    /// The memory type for a resource: the lowest allowed type whose property flags
    /// equal `flags`, else the lowest allowed type whose property flags include them.
    fn find_memory_type_index(&self, memory_type_bits: u32, flags: u32) -> (r: Option<u32>)
        ensures
            r == chosen_type(self@.memory_types, memory_type_bits, flags),
            memory_type_choice(self@.memory_types, memory_type_bits, flags, r),
    {
        proof {
            lemma_chosen_type_prefers_exact(self@.memory_types, memory_type_bits, flags);
        }
        let best_suitable_index = self.find_memory_type_index_f(memory_type_bits, flags, TypeMatch::Exact);
        if best_suitable_index.is_some() {
            return best_suitable_index;
        }
        self.find_memory_type_index_f(memory_type_bits, flags, TypeMatch::Includes)
    }

    /// Alignment of array elements in a buffer of the given usage.
    fn element_alignment(&self, buffer_usage: Option<u32>) -> (r: u64)
        ensures
            r == element_alignment_spec(self@.limits, buffer_usage),
            alignment_covers(self@.limits, buffer_usage, r),
    {
        let mut element_alignment: u64 = 1;
        if let Some(bu) = buffer_usage {
            let limits = self.limits;
            if bu & BUFFER_USAGE_UNIFORM_BUFFER != 0 {
                element_alignment = max(element_alignment, limits.min_uniform_buffer_offset_alignment);
            }
            if bu & BUFFER_USAGE_STORAGE_BUFFER != 0 {
                element_alignment = max(element_alignment, limits.min_storage_buffer_offset_alignment);
            }
            if bu & BUFFER_USAGE_UNIFORM_TEXEL_BUFFER != 0 {
                element_alignment = max(element_alignment, limits.min_uniform_buffer_offset_alignment);
                element_alignment = max(element_alignment, limits.min_texel_buffer_offset_alignment);
            }
            if bu & BUFFER_USAGE_STORAGE_TEXEL_BUFFER != 0 {
                element_alignment = max(element_alignment, limits.min_storage_buffer_offset_alignment);
                element_alignment = max(element_alignment, limits.min_texel_buffer_offset_alignment);
            }
        }
        proof {
            lemma_element_alignment_covers(self@.limits, buffer_usage);
        }
        element_alignment
    }

    /// Distance between consecutive elements of `size_one` bytes in a buffer of the
    /// given usage.
    fn stride(&self, size_one: usize, buffer_usage: Option<u32>) -> (r: usize)
        requires
            (element_alignment_spec(self@.limits, buffer_usage) as usize) <= 1 || size_one >= 1,
            stride_spec(size_one as int, (element_alignment_spec(self@.limits, buffer_usage) as usize) as int)
                <= usize::MAX,
        ensures
            r == stride_spec(size_one as int, (element_alignment_spec(self@.limits, buffer_usage) as usize) as int),
    {
        let element_alignment = self.element_alignment(buffer_usage);
        _stride(size_one, element_alignment as usize)
    }

    /// The memory type for a stand-alone allocation, or `OutOfGraphicsMemory` when no
    /// type fits. The caller then allocates the device memory itself and records it
    /// with `record_solo`.
    fn solo_memory_type(&self, requirements: &MemoryRequirements, flags: u32) -> (r: Result<u32, Error>)
        ensures
            chosen_type(self@.memory_types, requirements.memory_type_bits, flags) matches Some(t)
                ==> r == Ok::<u32, Error>(t),
            chosen_type(self@.memory_types, requirements.memory_type_bits, flags) is None
                ==> r == Err::<u32, Error>(Error::OutOfGraphicsMemory),
    {
        match self.find_memory_type_index(requirements.memory_type_bits, flags) {
            None => Err(Error::OutOfGraphicsMemory),
            Some(i) => Ok(i),
        }
    }

    /// Records a stand-alone allocation of memory type `t`.
    fn record_solo(&mut self, t: u32, size: u64, reason: &str)
        requires
            t < old(self)@.memory_types.len(),
        ensures
            final(self)@ == (MemoryState {
                solos: old(self)@.solos.push(SoloRecord {
                    memory_type_index: t,
                    memory_type: old(self)@.memory_types[t as int],
                    size,
                    reason: reason@,
                }),
                ..old(self)@
            }),
    {
        let info = SoloInfo {
            memory_type_index: t,
            memory_type: self.memory_types[t as usize],
            size,
            reason: reason.to_owned(),
        };
        let ghost before = self.solos@;
        self.solos.push(info);
        assert(self.solos@.map_values(|s: SoloInfo| s@) =~= before.map_values(|s: SoloInfo| s@).push(info@));
        assert(self@.solos =~= old(self)@.solos.push(info@));
    }
}

/// A fresh chunk of memory type `t` at position `k` of the list for `linearity`.
pub open spec fn fresh_chunk(memory: u64, t: u32, mt: MemoryType, linearity: Linearity, k: usize) -> ChunkState {
    ChunkState {
        memory,
        mapped: mt.property_flags & super::types::MEMORY_PROPERTY_HOST_VISIBLE != 0,
        blocks: Seq::empty(),
        freelist: Seq::empty(),
        memory_type_index: t,
        memory_type: mt,
        start_of_perm: CHUNK_SIZE,
        perm_blocks: Seq::empty(),
        dirty: false,
        linearity,
        chunk_number: k,
    }
}

/// A chunk has host writes that must be flushed explicitly.
pub open spec fn needs_flush(c: ChunkState) -> bool {
    c.mapped && c.memory_type.property_flags & super::types::MEMORY_PROPERTY_HOST_COHERENT == 0 && c.dirty
}

/// Where and what to flush for a chunk: the whole chunk, with the chunk's place in the
/// manager so that the flush can be reported back.
#[derive(Debug, Clone, Copy, PartialEq, Eq, Structural)]
pub struct FlushRange {
    pub linearity: Linearity,
    pub memory_type_index: u32,
    pub chunk_number: usize,
    pub memory: u64,
    pub offset: u64,
    pub size: u64,
}

/// The flush range of a chunk.
pub open spec fn range_of(c: ChunkState) -> FlushRange {
    FlushRange {
        linearity: c.linearity,
        memory_type_index: c.memory_type_index,
        chunk_number: c.chunk_number,
        memory: c.memory,
        offset: 0,
        size: CHUNK_SIZE,
    }
}

/// The ranges that a flush pass over a chunk list flushes, in order.
pub open spec fn list_flushes(cs: Seq<ChunkState>) -> Seq<FlushRange>
    decreases cs.len(),
{
    if cs.len() == 0 {
        Seq::empty()
    } else {
        list_flushes(cs.drop_last()) + if needs_flush(cs.last()) {
            seq![range_of(cs.last())]
        } else {
            Seq::empty()
        }
    }
}

/// The ranges that a flush pass over the lists of every memory type flushes, in order.
pub open spec fn types_flushes(ls: Seq<Seq<ChunkState>>) -> Seq<FlushRange>
    decreases ls.len(),
{
    if ls.len() == 0 {
        Seq::empty()
    } else {
        types_flushes(ls.drop_last()) + list_flushes(ls.last())
    }
}

/// Memory type `i` exists and the resource's bit mask allows it.
pub open spec fn allowed_type(types: Seq<MemoryType>, bits: u32, i: int) -> bool {
    0 <= i < types.len() && i < 32 && (bits >> (i as u32)) & 1 == 1
}

/// `r` is the right memory type for a resource: when some allowed type has exactly the
/// requested property flags, the lowest such type; otherwise the lowest allowed type
/// whose flags include the requested ones; none when no allowed type includes them.
pub open spec fn memory_type_choice(types: Seq<MemoryType>, bits: u32, flags: u32, r: Option<u32>) -> bool {
    if exists|i: int| allowed_type(types, bits, i) && #[trigger] types[i].property_flags == flags {
        r matches Some(t) && allowed_type(types, bits, t as int) && types[t as int].property_flags == flags
            && forall|j: int| 0 <= j < t && allowed_type(types, bits, j) ==> #[trigger] types[j].property_flags != flags
    } else if exists|i: int| allowed_type(types, bits, i) && #[trigger] types[i].property_flags & flags == flags {
        r matches Some(t) && allowed_type(types, bits, t as int) && types[t as int].property_flags & flags == flags
            && forall|j: int| 0 <= j < t && allowed_type(types, bits, j)
                ==> #[trigger] types[j].property_flags & flags != flags
    } else {
        r is None
    }
}

/// The memory type chosen for a resource prefers an exact match of the property flags
/// over a type that merely includes them, and the lowest allowed type within each.
pub proof fn lemma_chosen_type_prefers_exact(types: Seq<MemoryType>, bits: u32, flags: u32)
    ensures
        memory_type_choice(types, bits, flags, chosen_type(types, bits, flags)),
{
    lemma_first_fitting_type(types, bits, flags, TypeMatch::Exact, 0);
    lemma_first_fitting_type(types, bits, flags, TypeMatch::Includes, 0);
    let ex = first_fitting_type(types, bits, flags, TypeMatch::Exact, 0);
    let inc = first_fitting_type(types, bits, flags, TypeMatch::Includes, 0);
    if exists|i: int| allowed_type(types, bits, i) && #[trigger] types[i].property_flags == flags {
        let i = choose|i: int| allowed_type(types, bits, i) && #[trigger] types[i].property_flags == flags;
        assert(type_fits(types, bits, flags, TypeMatch::Exact, i));
        let t = ex->0;
        assert forall|j: int| 0 <= j < t && allowed_type(types, bits, j) implies #[trigger] types[j].property_flags
            != flags by {
            assert(!type_fits(types, bits, flags, TypeMatch::Exact, j));
        }
    } else {
        if let Some(t) = ex {
            assert(type_fits(types, bits, flags, TypeMatch::Exact, t as int));
            assert(allowed_type(types, bits, t as int));
        }
        if exists|i: int| allowed_type(types, bits, i) && #[trigger] types[i].property_flags & flags == flags {
            let i = choose|i: int| allowed_type(types, bits, i) && #[trigger] types[i].property_flags & flags == flags;
            assert(type_fits(types, bits, flags, TypeMatch::Includes, i));
            let t = inc->0;
            assert forall|j: int| 0 <= j < t && allowed_type(types, bits, j) implies #[trigger] types[j].property_flags
                & flags != flags by {
                assert(!type_fits(types, bits, flags, TypeMatch::Includes, j));
            }
        } else {
            if let Some(t) = inc {
                assert(type_fits(types, bits, flags, TypeMatch::Includes, t as int));
                assert(allowed_type(types, bits, t as int));
            }
        }
    }
}

/// The lowest fitting type, when there is one, fits.
pub proof fn lemma_first_fitting_type(types: Seq<MemoryType>, bits: u32, flags: u32, how: TypeMatch, i: int)
    requires
        i >= 0,
    ensures
        first_fitting_type(types, bits, flags, how, i) matches Some(t) ==> type_fits(types, bits, flags, how, t as int)
            && i <= t && forall|j: int| i <= j < t ==> !type_fits(types, bits, flags, how, j),
        first_fitting_type(types, bits, flags, how, i) is None ==> forall|j: int|
            i <= j ==> !type_fits(types, bits, flags, how, j),
    decreases types.len() - i,
{
    if 0 <= i < types.len() && !type_fits(types, bits, flags, how, i) {
        lemma_first_fitting_type(types, bits, flags, how, i + 1);
    }
}

impl MemoryInner {
    /// Tries to allocate a block for a resource with the given requirements, memory
    /// property flags, buffer usage (for element alignment), linearity and lifetime.
    /// Fails with `OutOfGraphicsMemory` when no memory type fits; otherwise tries the
    /// chunks of the chosen type in turn, or says that a chunk must be added.
    /// Requests larger than a chunk are not valid (the renderer stops on them), and
    /// Vulkan alignments are powers of two.
    fn allocate_device_memory(
        &mut self,
        requirements: &MemoryRequirements,
        flags: u32,
        buffer_usage: Option<u32>,
        linearity: Linearity,
        lifetime: Lifetime,
        reason: &str,
    ) -> (r: Result<AllocStep, Error>)
        requires
            memory_wf(old(self)@),
            requirements.size <= CHUNK_SIZE,
            is_power_of_two(requirements.alignment),
        ensures
            memory_wf(final(self)@),
            ({
                let m = old(self)@;
                let l = linearity.spec_index() as int;
                match chosen_type(m.memory_types, requirements.memory_type_bits, flags) {
                    None => r == Err::<AllocStep, Error>(Error::OutOfGraphicsMemory) && final(self)@ == m,
                    Some(t) => if m.chunks[l][t as int].len() == 0 {
                        r == Ok::<AllocStep, Error>(AllocStep::NeedFirstChunk(t)) && final(self)@ == m
                    } else {
                        let (cs, res) = try_chunks(m.chunks[l][t as int], 0, requirements.size,
                            requirements.alignment, element_alignment_spec(m.limits, buffer_usage), lifetime, reason@);
                        &&& final(self)@ == with_list(m, l, t as int, cs)
                        &&& res matches Some(b) ==> r == Ok::<AllocStep, Error>(AllocStep::Allocated(b))
                        &&& res is None ==> r == Ok::<AllocStep, Error>(AllocStep::NeedChunk(t))
                    },
                }
            }),
            r matches Ok(AllocStep::Allocated(b)) ==> b.offset_in_chunk + b.size <= CHUNK_SIZE
                && block_of(final(self)@, b) && b.size == requirements.size,
    {
        let ghost m = self@;
        let l = linearity.index();
        let t = match self.find_memory_type_index(requirements.memory_type_bits, flags) {
            None => return Err(Error::OutOfGraphicsMemory),
            Some(i) => i,
        };
        proof {
            lemma_first_fitting_type(m.memory_types, requirements.memory_type_bits, flags, TypeMatch::Exact, 0);
            lemma_first_fitting_type(m.memory_types, requirements.memory_type_bits, flags, TypeMatch::Includes, 0);
            assert(m.chunks[l as int].len() == m.memory_types.len());
            assert(self.chunks@[l as int]@.len() == m.chunks[l as int].len());
        }
        let tu = t as usize;
        let element_alignment = self.element_alignment(buffer_usage);
        if self.chunks[l][tu].len() == 0 {
            return Ok(AllocStep::NeedFirstChunk(t));
        }
        let mut list: Vec<Chunk> = Vec::new();
        let ghost before_take = self.chunks@;
        std::mem::swap(&mut self.chunks[l][tu], &mut list);
        proof {
            lemma_nested_update(before_take, l as int, t as int, self.chunks@[l as int], self.chunks@[l as int]@[t as int]);
            assert(chunk_states(self.chunks@[l as int]@[t as int]@) =~= Seq::<ChunkState>::empty());
        }
        let ghost orig = chunk_states(list@);
        assert(orig == m.chunks[l as int][t as int]);
        let ghost emptied = self@;
        proof {
            assert(emptied.chunks =~~= with_list(m, l as int, t as int, Seq::empty()).chunks);
        }
        assert(chunk_list_wf(orig, l as int, t as int, m.memory_types[t as int]));
        let mut k: usize = 0;
        while k < list.len()
            invariant
                m == old(self)@,
                memory_wf(m),
                self@ == emptied,
                self.chunks@.len() == 2,
                l < 2,
                l == linearity.spec_index(),
                tu == t,
                tu < self.chunks@[l as int]@.len(),
                t < m.memory_types.len(),
                emptied == with_list(m, l as int, t as int, Seq::empty()),
                orig == m.chunks[l as int][t as int],
                chosen_type(m.memory_types, requirements.memory_type_bits, flags) == Some(t),
                element_alignment == element_alignment_spec(m.limits, buffer_usage),
                0 <= k <= list.len(),
                orig.len() == list.len(),
                requirements.size <= CHUNK_SIZE,
                is_power_of_two(requirements.alignment),
                chunk_list_wf(chunk_states(list@), l as int, t as int, m.memory_types[t as int]),
                try_chunks(orig, 0, requirements.size, requirements.alignment, element_alignment, lifetime, reason@)
                    == try_chunks(chunk_states(list@), k as int, requirements.size, requirements.alignment,
                        element_alignment, lifetime, reason@),
            decreases list.len() - k,
        {
            let ghost before = chunk_states(list@);
            assert(chunk_wf(before[k as int]));
            proof {
                lemma_allocation_placed(before[k as int], requirements.size, requirements.alignment,
                    element_alignment, lifetime, reason@);
            }
            let res = list[k].allocate(requirements.size, requirements.alignment, element_alignment, lifetime, reason);
            proof {
                assert(chunk_states(list@) =~= before.update(k as int, list@[k as int]@));
            }
            match res {
                Some(b) => {
                    assert(try_chunks(before, k as int, requirements.size, requirements.alignment,
                        element_alignment, lifetime, reason@) == (chunk_states(list@), Some(b)));
                    let ghost before_swap = self.chunks@;
                    std::mem::swap(&mut self.chunks[l][tu], &mut list);
                    proof {
                        assert(self.chunks@ == before_swap.update(l as int, self.chunks@[l as int]));
                        assert(self.chunks@[l as int]@ == before_swap[l as int]@.update(t as int, self.chunks@[l as int]@[t as int]));
                        lemma_nested_update(before_swap, l as int, t as int, self.chunks@[l as int], self.chunks@[l as int]@[t as int]);
                        assert(nested_chunk_states(before_swap) == emptied.chunks);
                        assert(self@.chunks =~~= with_list(m, l as int, t as int, chunk_states(self.chunks@[l as int]@[t as int]@)).chunks);
                    }
                    return Ok(AllocStep::Allocated(b));
                },
                None => {},
            }
            k = k + 1;
        }
        let ghost before_swap = self.chunks@;
        std::mem::swap(&mut self.chunks[l][tu], &mut list);
        proof {
            lemma_nested_update(before_swap, l as int, t as int, self.chunks@[l as int], self.chunks@[l as int]@[t as int]);
            assert(self@.chunks =~~= with_list(m, l as int, t as int, chunk_states(self.chunks@[l as int]@[t as int]@)).chunks);
        }
        Ok(AllocStep::NeedChunk(t))
    }
}

/// The chunk lists are laid out by linearity and memory type.
pub open spec fn shaped(m: MemoryState) -> bool {
    &&& m.chunks.len() == 2
    &&& forall|l: int| 0 <= l < 2 ==> (#[trigger] m.chunks[l]).len() == m.memory_types.len()
}

/// The ranges that a flush pass over the whole manager flushes, in order: linear
/// chunks first, then nonlinear, each by memory type and position.
pub open spec fn all_flushes(m: MemoryState) -> Seq<FlushRange> {
    types_flushes(m.chunks[0]) + types_flushes(m.chunks[1])
}

/// A flush range names a chunk of the manager.
pub open spec fn range_in(m: MemoryState, r: FlushRange) -> bool {
    let l = r.linearity.spec_index() as int;
    &&& r.memory_type_index < m.memory_types.len()
    &&& r.chunk_number < m.chunks[l][r.memory_type_index as int].len()
}

impl MemoryInner {
    /// Takes out the chunk list of linearity `l` and memory type `t`, leaving it empty.
    fn take_list(&mut self, l: usize, t: usize) -> (r: Vec<Chunk>)
        requires
            shaped(old(self)@),
            l < 2,
            t < old(self)@.memory_types.len(),
        ensures
            chunk_states(r@) == old(self)@.chunks[l as int][t as int],
            final(self)@ == with_list(old(self)@, l as int, t as int, Seq::empty()),
    {
        proof {
            assert(self@.chunks[l as int].len() == self@.memory_types.len());
        }
        let mut list: Vec<Chunk> = Vec::new();
        let ghost before = self.chunks@;
        std::mem::swap(&mut self.chunks[l][t], &mut list);
        proof {
            lemma_nested_update(before, l as int, t as int, self.chunks@[l as int], self.chunks@[l as int]@[t as int]);
            assert(chunk_states(self.chunks@[l as int]@[t as int]@) =~= Seq::<ChunkState>::empty());
            assert(self@.chunks =~~= with_list(old(self)@, l as int, t as int, Seq::empty()).chunks);
        }
        list
    }

    /// Puts a chunk list back in place of the (empty) list of linearity `l` and type `t`.
    fn put_list(&mut self, l: usize, t: usize, list: Vec<Chunk>)
        requires
            shaped(old(self)@),
            l < 2,
            t < old(self)@.memory_types.len(),
        ensures
            final(self)@ == with_list(old(self)@, l as int, t as int, chunk_states(list@)),
    {
        proof {
            assert(self@.chunks[l as int].len() == self@.memory_types.len());
        }
        let mut list = list;
        let ghost before = self.chunks@;
        std::mem::swap(&mut self.chunks[l][t], &mut list);
        proof {
            lemma_nested_update(before, l as int, t as int, self.chunks@[l as int], self.chunks@[l as int]@[t as int]);
            assert(self@.chunks =~~= with_list(old(self)@, l as int, t as int, chunk_states(self.chunks@[l as int]@[t as int]@)).chunks);
        }
    }

    /// Adds a fresh chunk over the device memory `memory` to the list of memory type `t`
    /// for `linearity`.
    fn add_chunk(&mut self, linearity: Linearity, t: u32, memory: u64)
        requires
            memory_wf(old(self)@),
            t < old(self)@.memory_types.len(),
        ensures
            memory_wf(final(self)@),
            ({
                let m = old(self)@;
                let l = linearity.spec_index() as int;
                let cs = m.chunks[l][t as int];
                final(self)@ == with_list(m, l, t as int,
                    cs.push(fresh_chunk(memory, t, m.memory_types[t as int], linearity, cs.len() as usize)))
            }),
    {
        let ghost m = self@;
        let l = linearity.index();
        let tu = t as usize;
        let mt = self.memory_types[tu];
        let mut list = self.take_list(l, tu);
        let k = list.len();
        let c = Chunk::new(memory, t, mt, linearity, k);
        let ghost before = chunk_states(list@);
        list.push(c);
        proof {
            assert(chunk_states(list@) =~= before.push(c@));
            assert(c@ == fresh_chunk(memory, t, m.memory_types[t as int], linearity, k));
        }
        self.put_list(l, tu, list);
        proof {
            assert(self@.chunks =~~= with_list(m, l as int, t as int, before.push(c@)).chunks);
            let f = self@;
            assert forall|a: int, b: int| 0 <= a < 2 && 0 <= b < f.memory_types.len() implies chunk_list_wf(
                #[trigger] f.chunks[a][b], a, b, f.memory_types[b]) by {
                if a == l && b == t {
                    assert forall|q: int| 0 <= q < f.chunks[a][b].len() implies {
                        &&& chunk_wf(#[trigger] f.chunks[a][b][q])
                        &&& f.chunks[a][b][q].linearity.spec_index() == a
                        &&& f.chunks[a][b][q].chunk_number == q
                        &&& f.chunks[a][b][q].memory_type_index == b
                        &&& f.chunks[a][b][q].memory_type == f.memory_types[b]
                    } by {
                        if q < before.len() {
                            assert(f.chunks[a][b][q] == m.chunks[a][b][q]);
                        }
                    }
                } else {
                    assert(f.chunks[a][b] == m.chunks[a][b]);
                }
            }
        }
    }

    /// Records a fresh chunk over the device memory `memory` of type `t` and allocates the
    /// block in it. Succeeds exactly when the block is permanent or smaller than a chunk.
    fn allocate_in_new_chunk(
        &mut self,
        linearity: Linearity,
        t: u32,
        memory: u64,
        requirements: &MemoryRequirements,
        buffer_usage: Option<u32>,
        lifetime: Lifetime,
        reason: &str,
    ) -> (r: Result<Block, Error>)
        requires
            memory_wf(old(self)@),
            t < old(self)@.memory_types.len(),
            requirements.size <= CHUNK_SIZE,
            is_power_of_two(requirements.alignment),
        ensures
            memory_wf(final(self)@),
            ({
                let m = old(self)@;
                let l = linearity.spec_index() as int;
                let cs = m.chunks[l][t as int];
                let fresh = fresh_chunk(memory, t, m.memory_types[t as int], linearity, cs.len() as usize);
                let (c2, res) = allocate_spec(fresh, requirements.size, requirements.alignment,
                    element_alignment_spec(m.limits, buffer_usage), lifetime, reason@);
                &&& final(self)@ == with_list(m, l, t as int, cs.push(c2))
                &&& res matches Some(b) ==> r == Ok::<Block, Error>(b)
                &&& res is None ==> r == Err::<Block, Error>(Error::OutOfGraphicsMemory)
            }),
            r is Ok <==> (lifetime == Lifetime::Permanent || requirements.size < CHUNK_SIZE),
            r matches Ok(b) ==> b.offset_in_chunk + b.size <= CHUNK_SIZE && block_of(final(self)@, b),
    {
        let ghost m = self@;
        let l = linearity.index();
        let tu = t as usize;
        let mt = self.memory_types[tu];
        let element_alignment = self.element_alignment(buffer_usage);
        let mut list = self.take_list(l, tu);
        let k = list.len();
        let mut c = Chunk::new(memory, t, mt, linearity, k);
        proof {
            assert(c@ == fresh_chunk(memory, t, m.memory_types[t as int], linearity, k));
            super::chunk::lemma_fresh_chunk_allocation(c@, requirements.size, requirements.alignment,
                element_alignment, lifetime, reason@);
            lemma_allocation_placed(c@, requirements.size, requirements.alignment, element_alignment,
                lifetime, reason@);
        }
        let res = c.allocate(requirements.size, requirements.alignment, element_alignment, lifetime, reason);
        let ghost before = chunk_states(list@);
        list.push(c);
        proof {
            assert(chunk_states(list@) =~= before.push(c@));
        }
        self.put_list(l, tu, list);
        proof {
            assert(self@.chunks =~~= with_list(m, l as int, t as int, before.push(c@)).chunks);
            let f = self@;
            assert forall|a: int, b: int| 0 <= a < 2 && 0 <= b < f.memory_types.len() implies chunk_list_wf(
                #[trigger] f.chunks[a][b], a, b, f.memory_types[b]) by {
                if a == l && b == t {
                    assert forall|q: int| 0 <= q < f.chunks[a][b].len() implies {
                        &&& chunk_wf(#[trigger] f.chunks[a][b][q])
                        &&& f.chunks[a][b][q].linearity.spec_index() == a
                        &&& f.chunks[a][b][q].chunk_number == q
                        &&& f.chunks[a][b][q].memory_type_index == b
                        &&& f.chunks[a][b][q].memory_type == f.memory_types[b]
                    } by {
                        if q < before.len() {
                            assert(f.chunks[a][b][q] == m.chunks[a][b][q]);
                        }
                    }
                } else {
                    assert(f.chunks[a][b] == m.chunks[a][b]);
                }
            }
        }
        match res {
            Some(b) => Ok(b),
            None => Err(Error::OutOfGraphicsMemory),
        }
    }
}

/// The flushes of the lists before (`l`, `t`).
pub open spec fn flushes_before(m: MemoryState, l: int, t: int) -> Seq<FlushRange> {
    if l == 0 {
        types_flushes(m.chunks[0].take(t))
    } else {
        types_flushes(m.chunks[0]) + types_flushes(m.chunks[1].take(t))
    }
}

impl MemoryInner {
    /// Marks the block's offset as free in its chunk.
    fn release(&mut self, block: Block)
        requires
            memory_wf(old(self)@),
            block_of(old(self)@, block),
        ensures
            memory_wf(final(self)@),
            ({
                let m = old(self)@;
                let l = block.linearity.spec_index() as int;
                let t = block.memory_type_index as int;
                let k = block.chunk_number as int;
                let cs = m.chunks[l][t];
                final(self)@ == with_list(m, l, t,
                    cs.update(k, ChunkState { freelist: cs[k].freelist.push(block.offset_in_chunk), ..cs[k] }))
            }),
    {
        let ghost m = self@;
        let l = block.linearity.index();
        let tu = block.memory_type_index as usize;
        let k = block.chunk_number;
        let mut list = self.take_list(l, tu);
        let ghost before = chunk_states(list@);
        list[k].release(block.offset_in_chunk);
        proof {
            assert(chunk_states(list@) =~= before.update(k as int, list@[k as int]@));
        }
        self.put_list(l, tu, list);
        proof {
            let t = tu as int;
            assert(self@.chunks =~~= with_list(m, l as int, t, before.update(k as int, list@[k as int]@)).chunks);
            let f = self@;
            assert forall|a: int, b: int| 0 <= a < 2 && 0 <= b < f.memory_types.len() implies chunk_list_wf(
                #[trigger] f.chunks[a][b], a, b, f.memory_types[b]) by {
                if a == l && b == t {
                    assert forall|q: int| 0 <= q < f.chunks[a][b].len() implies {
                        &&& chunk_wf(#[trigger] f.chunks[a][b][q])
                        &&& f.chunks[a][b][q].linearity.spec_index() == a
                        &&& f.chunks[a][b][q].chunk_number == q
                        &&& f.chunks[a][b][q].memory_type_index == b
                        &&& f.chunks[a][b][q].memory_type == f.memory_types[b]
                    } by {
                        assert(chunk_wf(m.chunks[a][b][q]));
                    }
                } else {
                    assert(f.chunks[a][b] == m.chunks[a][b]);
                }
            }
        }
    }

    /// Records that the host wrote into the block's chunk.
    fn mark_dirty(&mut self, block: &Block)
        requires
            memory_wf(old(self)@),
            block_of(old(self)@, *block),
        ensures
            memory_wf(final(self)@),
            final(self)@ == dirtied(old(self)@, *block),
    {
        let ghost m = self@;
        let l = block.linearity.index();
        let tu = block.memory_type_index as usize;
        let k = block.chunk_number;
        let mut list = self.take_list(l, tu);
        let ghost before = chunk_states(list@);
        list[k].mark_dirty();
        proof {
            assert(chunk_states(list@) =~= before.update(k as int, list@[k as int]@));
        }
        self.put_list(l, tu, list);
        proof {
            let t = tu as int;
            assert(self@.chunks =~~= with_list(m, l as int, t, before.update(k as int, list@[k as int]@)).chunks);
            let f = self@;
            assert forall|a: int, b: int| 0 <= a < 2 && 0 <= b < f.memory_types.len() implies chunk_list_wf(
                #[trigger] f.chunks[a][b], a, b, f.memory_types[b]) by {
                if a == l && b == t {
                    assert forall|q: int| 0 <= q < f.chunks[a][b].len() implies {
                        &&& chunk_wf(#[trigger] f.chunks[a][b][q])
                        &&& f.chunks[a][b][q].linearity.spec_index() == a
                        &&& f.chunks[a][b][q].chunk_number == q
                        &&& f.chunks[a][b][q].memory_type_index == b
                        &&& f.chunks[a][b][q].memory_type == f.memory_types[b]
                    } by {
                        assert(chunk_wf(m.chunks[a][b][q]));
                    }
                } else {
                    assert(f.chunks[a][b] == m.chunks[a][b]);
                }
            }
        }
    }

    /// The flush pass: for every mapped, non-coherent chunk with host writes, the range
    /// to flush. Linear chunks come first, then nonlinear ones, each by memory type and
    /// position. Nothing changes until each flush is reported with `mark_flushed`.
    fn flushes(&self) -> (r: Vec<FlushRange>)
        requires
            memory_wf(self@),
        ensures
            r@ == all_flushes(self@),
            forall|i: int| 0 <= i < r@.len() ==> range_in(self@, #[trigger] r@[i]),
    {
        let ghost m = self@;
        let n = self.memory_types.len();
        let mut r: Vec<FlushRange> = Vec::new();
        let mut l: usize = 0;
        proof {
            assert(m.chunks[0].take(0) =~= Seq::<Seq<ChunkState>>::empty());
            assert(r@ =~= flushes_before(m, 0, 0));
        }
        while l < 2
            invariant
                m == self@,
                memory_wf(m),
                n == m.memory_types.len(),
                0 <= l <= 2,
                l < 2 ==> r@ == flushes_before(m, l as int, 0),
                l == 2 ==> r@ == all_flushes(m),
                forall|i: int| 0 <= i < r@.len() ==> range_in(m, #[trigger] r@[i]),
            decreases 2 - l,
        {
            let mut t: usize = 0;
            while t < n
                invariant
                    m == self@,
                    memory_wf(m),
                    n == m.memory_types.len(),
                    0 <= l < 2,
                    0 <= t <= n,
                    r@ == flushes_before(m, l as int, t as int),
                    forall|i: int| 0 <= i < r@.len() ==> range_in(m, #[trigger] r@[i]),
                decreases n - t,
            {
                proof {
                    assert(m.chunks[l as int].len() == n);
                }
                let list = &self.chunks[l][t];
                let ghost cs = m.chunks[l as int][t as int];
                let ghost r0 = r@;
                assert(chunk_states(list@) == cs);
                let mut k: usize = 0;
                proof {
                    assert(cs.take(0) =~= Seq::<ChunkState>::empty());
                    assert(r@ =~= r0 + list_flushes(cs.take(0)));
                }
                while k < list.len()
                    invariant
                        m == self@,
                        memory_wf(m),
                        0 <= l < 2,
                        t < n,
                        n == m.memory_types.len(),
                        cs == m.chunks[l as int][t as int],
                        0 <= k <= list.len(),
                        list.len() == cs.len(),
                        chunk_states(list@) == cs,
                        r@ == r0 + list_flushes(cs.take(k as int)),
                        forall|i: int| 0 <= i < r@.len() ==> range_in(m, #[trigger] r@[i]),
                    decreases list.len() - k,
                {
                    assert(list@[k as int]@ == cs[k as int]);
                    let f = list[k].flush_range();
                    proof {
                        assert(cs.take(k as int + 1).drop_last() =~= cs.take(k as int));
                        assert(cs.take(k as int + 1).last() == cs[k as int]);
                        assert(chunk_list_wf(cs, l as int, t as int, m.memory_types[t as int]));
                        assert(chunk_wf(cs[k as int]));
                    }
                    if let Some((o, sz)) = f {
                        let c = &list[k];
                        let fr = FlushRange {
                            linearity: c.linearity,
                            memory_type_index: c.memory_type_index,
                            chunk_number: c.chunk_number,
                            memory: c.memory,
                            offset: o,
                            size: sz,
                        };
                        proof {
                            assert(fr == range_of(cs[k as int]));
                            assert(range_in(m, fr));
                        }
                        r.push(fr);
                    }
                    proof {
                        assert(r@ =~= r0 + list_flushes(cs.take(k as int + 1)));
                    }
                    k = k + 1;
                }
                proof {
                    assert(cs.take(k as int) =~= cs);
                    assert(m.chunks[l as int].take(t as int + 1).drop_last() =~= m.chunks[l as int].take(t as int));
                    assert(m.chunks[l as int].take(t as int + 1).last() == cs);
                    assert(r@ =~= flushes_before(m, l as int, t as int + 1));
                }
                t = t + 1;
            }
            proof {
                assert(m.chunks[l as int].len() == n);
                assert(m.chunks[l as int].take(n as int) =~= m.chunks[l as int]);
                if l == 0 {
                    assert(m.chunks[1].take(0) =~= Seq::<Seq<ChunkState>>::empty());
                    assert(r@ =~= flushes_before(m, 1, 0));
                } else {
                    assert(r@ =~= all_flushes(m));
                }
            }
            l = l + 1;
        }
        r
    }

    /// Whether `block` names a chunk of this manager (as every block it handed out does).
    fn holds(&self, block: &Block) -> (r: bool)
        requires
            memory_wf(self@),
        ensures
            r == block_of(self@, *block),
    {
        let l = block.linearity.index();
        if block.memory_type_index as usize >= self.memory_types.len() {
            return false;
        }
        let t = block.memory_type_index as usize;
        proof {
            assert(self@.chunks[l as int].len() == self@.memory_types.len());
            assert(self.chunks@[l as int]@[t as int]@.len() == self@.chunks[l as int][t as int].len());
        }
        block.chunk_number < self.chunks[l][t].len()
    }

    /// Writes one element of `elem_size` bytes at element position `offset` (0 when not
    /// given): gives the byte offset in the block where it goes and marks the block's
    /// chunk as written. Fails with `MemoryNotHostWritable`, changing nothing, when the
    /// block is not host visible. The element must lie inside the block.
    fn write_one(&mut self, block: &Block, elem_size: usize, offset: Option<usize>) -> (r: Result<usize, Error>)
        requires
            memory_wf(old(self)@),
            block_of(old(self)@, *block),
            stride_ok(*block, elem_size),
            block.host_visible ==> block_stride(*block, elem_size) * (offset.unwrap_or(0) + 1) <= (block.size as usize),
        ensures
            memory_wf(final(self)@),
            !block.host_visible ==> r == Err::<usize, Error>(Error::MemoryNotHostWritable)
                && final(self)@ == old(self)@,
            block.host_visible ==> r == Ok::<usize, Error>((offset.unwrap_or(0) * block_stride(*block, elem_size)) as usize)
                && final(self)@ == dirtied(old(self)@, *block),
    {
        let r = block.write_one(elem_size, offset);
        if r.is_ok() {
            self.mark_dirty(block);
        }
        r
    }

    /// Writes `count` elements of `elem_size` bytes from element position `offset` (0 when
    /// not given): element `j` goes to byte `start + j * stride` of the block, and the
    /// result is `(start, stride)`, with `start` the byte offset of element `offset`.
    /// Marks the block's chunk as written; fails with `MemoryNotHostWritable`, changing
    /// nothing, when the block is not host visible. The elements must lie inside the block.
    fn write_array(&mut self, block: &Block, elem_size: usize, count: usize, offset: Option<usize>)
        -> (r: Result<(usize, usize), Error>)
        requires
            memory_wf(old(self)@),
            block_of(old(self)@, *block),
            stride_ok(*block, elem_size),
            block.host_visible ==> block_stride(*block, elem_size) * (offset.unwrap_or(0) + count) <= (block.size as usize),
        ensures
            memory_wf(final(self)@),
            !block.host_visible ==> r == Err::<(usize, usize), Error>(Error::MemoryNotHostWritable)
                && final(self)@ == old(self)@,
            block.host_visible ==> r == Ok::<(usize, usize), Error>((
                (offset.unwrap_or(0) * block_stride(*block, elem_size)) as usize,
                block_stride(*block, elem_size) as usize,
            )) && final(self)@ == dirtied(old(self)@, *block),
    {
        let r = block.write_array(elem_size, count, offset);
        if r.is_ok() {
            self.mark_dirty(block);
        }
        r
    }

    /// A byte-stream write of `buf_len` bytes into `block` (see `Block::stdio_write`),
    /// marking the block's chunk as written when the block is host visible.
    fn stdio_write(&mut self, block: &mut Block, buf_len: usize) -> (r: Result<(u64, u64), Error>)
        requires
            memory_wf(old(self)@),
            block_of(old(self)@, *old(block)),
            old(block).stdio_write_offset <= old(block).size,
        ensures
            memory_wf(final(self)@),
            ({
                let room = old(block).size - old(block).stdio_write_offset;
                let n = if buf_len as int <= room { buf_len as int } else { room };
                &&& !old(block).host_visible ==> r == Err::<(u64, u64), Error>(Error::MemoryNotHostWritable)
                    && *final(block) == *old(block) && final(self)@ == old(self)@
                &&& old(block).host_visible ==> r == Ok::<(u64, u64), Error>((old(block).stdio_write_offset, n as u64))
                    && *final(block) == (Block { stdio_write_offset: (old(block).stdio_write_offset + n) as u64, ..*old(block) })
                    && final(self)@ == dirtied(old(self)@, *old(block))
            }),
    {
        let r = block.stdio_write(buf_len);
        if r.is_ok() {
            self.mark_dirty(block);
        }
        r
    }

    /// Records that the flush of `range` succeeded: its chunk's dirty bit is cleared.
    /// Gives false, changing nothing, when the range names no chunk of this manager.
    fn mark_flushed(&mut self, range: &FlushRange) -> (ok: bool)
        requires
            memory_wf(old(self)@),
        ensures
            memory_wf(final(self)@),
            ok == range_in(old(self)@, *range),
            ok ==> ({
                let m = old(self)@;
                let l = range.linearity.spec_index() as int;
                let t = range.memory_type_index as int;
                let k = range.chunk_number as int;
                let cs = m.chunks[l][t];
                final(self)@ == with_list(m, l, t, cs.update(k, ChunkState { dirty: false, ..cs[k] }))
            }),
            !ok ==> final(self)@ == old(self)@,
    {
        let ghost m = self@;
        let l = range.linearity.index();
        if range.memory_type_index as usize >= self.memory_types.len() {
            return false;
        }
        let tu = range.memory_type_index as usize;
        proof {
            assert(m.chunks[l as int].len() == m.memory_types.len());
            assert(self.chunks@[l as int]@[tu as int]@.len() == m.chunks[l as int][tu as int].len());
        }
        if range.chunk_number >= self.chunks[l][tu].len() {
            return false;
        }
        let k = range.chunk_number;
        let mut list = self.take_list(l, tu);
        let ghost before = chunk_states(list@);
        list[k].mark_flushed();
        proof {
            assert(chunk_states(list@) =~= before.update(k as int, list@[k as int]@));
        }
        self.put_list(l, tu, list);
        proof {
            let t = tu as int;
            assert(self@.chunks =~~= with_list(m, l as int, t, before.update(k as int, list@[k as int]@)).chunks);
            let f = self@;
            assert forall|a: int, b: int| 0 <= a < 2 && 0 <= b < f.memory_types.len() implies chunk_list_wf(
                #[trigger] f.chunks[a][b], a, b, f.memory_types[b]) by {
                if a == l && b == t {
                    assert forall|q: int| 0 <= q < f.chunks[a][b].len() implies {
                        &&& chunk_wf(#[trigger] f.chunks[a][b][q])
                        &&& f.chunks[a][b][q].linearity.spec_index() == a
                        &&& f.chunks[a][b][q].chunk_number == q
                        &&& f.chunks[a][b][q].memory_type_index == b
                        &&& f.chunks[a][b][q].memory_type == f.memory_types[b]
                    } by {
                        assert(chunk_wf(m.chunks[a][b][q]));
                    }
                } else {
                    assert(f.chunks[a][b] == m.chunks[a][b]);
                }
            }
        }
        true
    }
}

/// The memory manager.
pub struct Memory {
    inner: MemoryInner,
}

impl View for Memory {
    type V = MemoryState;

    closed spec fn view(&self) -> MemoryState {
        self.inner@
    }
}

impl Memory {
    /// Every manager is well formed.
    #[verifier::type_invariant]
    closed spec fn inv(self) -> bool {
        memory_wf(self.inner@)
    }

    /// Takes the data out, leaving an empty manager of no memory types.
    fn take_inner(&mut self) -> (r: MemoryInner)
        ensures
            r@ == old(self)@,
            memory_wf(r@),
    {
        proof {
            use_type_invariant(&*self);
        }
        let mut chunks: Vec<Vec<Vec<Chunk>>> = Vec::new();
        chunks.push(Vec::new());
        chunks.push(Vec::new());
        let mut inner = MemoryInner { chunks, memory_types: Vec::new(), limits: self.inner.limits, solos: Vec::new() };
        proof {
            assert(inner@.chunks[0].len() == 0 && inner@.chunks[1].len() == 0);
        }
        std::mem::swap(&mut self.inner, &mut inner);
        inner
    }

    /// Puts well-formed data back.
    fn put_inner(&mut self, inner: MemoryInner)
        requires
            memory_wf(inner@),
        ensures
            final(self)@ == inner@,
    {
        let mut inner = inner;
        std::mem::swap(&mut self.inner, &mut inner);
    }

    /// A manager for a device with the given memory types and limits, with no chunks.
    pub fn new(memory_types: Vec<MemoryType>, limits: Limits) -> (m: Memory)
        ensures
            memory_wf(m@),
            m@.memory_types == memory_types@,
            m@.limits == limits,
            m@.solos.len() == 0,
            forall|l: int, t: int| 0 <= l < 2 && 0 <= t < memory_types@.len() ==> (#[trigger] m@.chunks[l][t]).len() == 0,
    {
        Memory { inner: MemoryInner::new(memory_types, limits) }
    }

    /// The memory types of the device.
    pub fn memory_types(&self) -> (r: &Vec<MemoryType>)
        ensures
            r@ == self@.memory_types,
    {
        proof {
            use_type_invariant(self);
        }
        self.inner.memory_types()
    }

    /// The device limits.
    pub fn limits(&self) -> (r: Limits)
        ensures
            r == self@.limits,
    {
        proof {
            use_type_invariant(self);
        }
        self.inner.limits()
    }

    /// The stand-alone allocations recorded so far.
    pub fn solos(&self) -> (r: &Vec<SoloInfo>)
        ensures
            r@.map_values(|s: SoloInfo| s@) == self@.solos,
    {
        proof {
            use_type_invariant(self);
        }
        self.inner.solos()
    }

    /// The chunks of one linearity (by list index) and memory type.
    pub fn chunks_of(&self, l: usize, t: usize) -> (r: &Vec<Chunk>)
        requires
            l < 2,
            t < self@.memory_types.len(),
        ensures
            chunk_states(r@) == self@.chunks[l as int][t as int],
    {
        proof {
            use_type_invariant(self);
        }
        self.inner.chunks_of(l, t)
    }

    /// The lowest memory type, allowed by the bit mask, whose property flags fit `flags`.
    pub fn find_memory_type_index_f(&self, memory_type_bits: u32, flags: u32, how: TypeMatch) -> (r: Option<u32>)
        ensures
            r == first_fitting_type(self@.memory_types, memory_type_bits, flags, how, 0),
    {
        proof {
            use_type_invariant(self);
        }
        self.inner.find_memory_type_index_f(memory_type_bits, flags, how)
    }

    /// The memory type for a resource: the lowest allowed type whose property flags
    /// equal `flags`, else the lowest allowed type whose property flags include them.
    pub fn find_memory_type_index(&self, memory_type_bits: u32, flags: u32) -> (r: Option<u32>)
        ensures
            r == chosen_type(self@.memory_types, memory_type_bits, flags),
            memory_type_choice(self@.memory_types, memory_type_bits, flags, r),
    {
        proof {
            use_type_invariant(self);
        }
        self.inner.find_memory_type_index(memory_type_bits, flags)
    }

    /// Alignment of array elements in a buffer of the given usage.
    pub fn element_alignment(&self, buffer_usage: Option<u32>) -> (r: u64)
        ensures
            r == element_alignment_spec(self@.limits, buffer_usage),
            alignment_covers(self@.limits, buffer_usage, r),
    {
        proof {
            use_type_invariant(self);
        }
        self.inner.element_alignment(buffer_usage)
    }

    /// Distance between consecutive elements of `size_one` bytes in a buffer of the
    /// given usage.
    pub fn stride(&self, size_one: usize, buffer_usage: Option<u32>) -> (r: usize)
        requires
            (element_alignment_spec(self@.limits, buffer_usage) as usize) <= 1 || size_one >= 1,
            stride_spec(size_one as int, (element_alignment_spec(self@.limits, buffer_usage) as usize) as int)
                <= usize::MAX,
        ensures
            r == stride_spec(size_one as int, (element_alignment_spec(self@.limits, buffer_usage) as usize) as int),
    {
        proof {
            use_type_invariant(self);
        }
        self.inner.stride(size_one, buffer_usage)
    }

    /// The memory type for a stand-alone allocation, or `OutOfGraphicsMemory` when no
    /// type fits. The caller then allocates the device memory itself and records it
    /// with `record_solo`.
    pub fn solo_memory_type(&self, requirements: &MemoryRequirements, flags: u32) -> (r: Result<u32, Error>)
        ensures
            chosen_type(self@.memory_types, requirements.memory_type_bits, flags) matches Some(t)
                ==> r == Ok::<u32, Error>(t),
            chosen_type(self@.memory_types, requirements.memory_type_bits, flags) is None
                ==> r == Err::<u32, Error>(Error::OutOfGraphicsMemory),
    {
        proof {
            use_type_invariant(self);
        }
        self.inner.solo_memory_type(requirements, flags)
    }

    /// Records a stand-alone allocation of memory type `t`.
    pub fn record_solo(&mut self, t: u32, size: u64, reason: &str)
        requires
            t < old(self)@.memory_types.len(),
        ensures
            final(self)@ == (MemoryState {
                solos: old(self)@.solos.push(SoloRecord {
                    memory_type_index: t,
                    memory_type: old(self)@.memory_types[t as int],
                    size,
                    reason: reason@,
                }),
                ..old(self)@
            }),
    {
        proof {
            use_type_invariant(&*self);
        }
        let mut inner = self.take_inner();
        let r = inner.record_solo(t, size, reason);
        self.put_inner(inner);
        r
    }

    /// Tries to allocate a block for a resource with the given requirements, memory
    /// property flags, buffer usage (for element alignment), linearity and lifetime.
    /// Fails with `OutOfGraphicsMemory` when no memory type fits; otherwise tries the
    /// chunks of the chosen type in turn, or says that a chunk must be added.
    /// Requests larger than a chunk are not valid (the renderer stops on them), and
    /// Vulkan alignments are powers of two.
    pub fn allocate_device_memory(
        &mut self,
        requirements: &MemoryRequirements,
        flags: u32,
        buffer_usage: Option<u32>,
        linearity: Linearity,
        lifetime: Lifetime,
        reason: &str,
    ) -> (r: Result<AllocStep, Error>)
        requires
            requirements.size <= CHUNK_SIZE,
            is_power_of_two(requirements.alignment),
        ensures
            memory_wf(final(self)@),
            ({
                let m = old(self)@;
                let l = linearity.spec_index() as int;
                match chosen_type(m.memory_types, requirements.memory_type_bits, flags) {
                    None => r == Err::<AllocStep, Error>(Error::OutOfGraphicsMemory) && final(self)@ == m,
                    Some(t) => if m.chunks[l][t as int].len() == 0 {
                        r == Ok::<AllocStep, Error>(AllocStep::NeedFirstChunk(t)) && final(self)@ == m
                    } else {
                        let (cs, res) = try_chunks(m.chunks[l][t as int], 0, requirements.size,
                            requirements.alignment, element_alignment_spec(m.limits, buffer_usage), lifetime, reason@);
                        &&& final(self)@ == with_list(m, l, t as int, cs)
                        &&& res matches Some(b) ==> r == Ok::<AllocStep, Error>(AllocStep::Allocated(b))
                        &&& res is None ==> r == Ok::<AllocStep, Error>(AllocStep::NeedChunk(t))
                    },
                }
            }),
            r matches Ok(AllocStep::Allocated(b)) ==> b.offset_in_chunk + b.size <= CHUNK_SIZE
                && block_of(final(self)@, b) && b.size == requirements.size,
    {
        proof {
            use_type_invariant(&*self);
        }
        let mut inner = self.take_inner();
        let r = inner.allocate_device_memory(requirements, flags, buffer_usage, linearity, lifetime, reason);
        self.put_inner(inner);
        r
    }

    /// Adds a fresh chunk over the device memory `memory` to the list of memory type `t`
    /// for `linearity`.
    pub fn add_chunk(&mut self, linearity: Linearity, t: u32, memory: u64)
        requires
            t < old(self)@.memory_types.len(),
        ensures
            memory_wf(final(self)@),
            ({
                let m = old(self)@;
                let l = linearity.spec_index() as int;
                let cs = m.chunks[l][t as int];
                final(self)@ == with_list(m, l, t as int,
                    cs.push(fresh_chunk(memory, t, m.memory_types[t as int], linearity, cs.len() as usize)))
            }),
    {
        proof {
            use_type_invariant(&*self);
        }
        let mut inner = self.take_inner();
        let r = inner.add_chunk(linearity, t, memory);
        self.put_inner(inner);
        r
    }

    /// Records a fresh chunk over the device memory `memory` of type `t` and allocates the
    /// block in it. Succeeds exactly when the block is permanent or smaller than a chunk.
    pub fn allocate_in_new_chunk(
        &mut self,
        linearity: Linearity,
        t: u32,
        memory: u64,
        requirements: &MemoryRequirements,
        buffer_usage: Option<u32>,
        lifetime: Lifetime,
        reason: &str,
    ) -> (r: Result<Block, Error>)
        requires
            t < old(self)@.memory_types.len(),
            requirements.size <= CHUNK_SIZE,
            is_power_of_two(requirements.alignment),
        ensures
            memory_wf(final(self)@),
            ({
                let m = old(self)@;
                let l = linearity.spec_index() as int;
                let cs = m.chunks[l][t as int];
                let fresh = fresh_chunk(memory, t, m.memory_types[t as int], linearity, cs.len() as usize);
                let (c2, res) = allocate_spec(fresh, requirements.size, requirements.alignment,
                    element_alignment_spec(m.limits, buffer_usage), lifetime, reason@);
                &&& final(self)@ == with_list(m, l, t as int, cs.push(c2))
                &&& res matches Some(b) ==> r == Ok::<Block, Error>(b)
                &&& res is None ==> r == Err::<Block, Error>(Error::OutOfGraphicsMemory)
            }),
            r is Ok <==> (lifetime == Lifetime::Permanent || requirements.size < CHUNK_SIZE),
            r matches Ok(b) ==> b.offset_in_chunk + b.size <= CHUNK_SIZE && block_of(final(self)@, b),
    {
        proof {
            use_type_invariant(&*self);
        }
        let mut inner = self.take_inner();
        let r = inner.allocate_in_new_chunk(linearity, t, memory, requirements, buffer_usage, lifetime, reason);
        self.put_inner(inner);
        r
    }

    /// Marks the block's offset as free in its chunk.
    pub fn release(&mut self, block: Block)
        requires
            block_of(old(self)@, block),
        ensures
            memory_wf(final(self)@),
            ({
                let m = old(self)@;
                let l = block.linearity.spec_index() as int;
                let t = block.memory_type_index as int;
                let k = block.chunk_number as int;
                let cs = m.chunks[l][t];
                final(self)@ == with_list(m, l, t,
                    cs.update(k, ChunkState { freelist: cs[k].freelist.push(block.offset_in_chunk), ..cs[k] }))
            }),
    {
        proof {
            use_type_invariant(&*self);
        }
        let mut inner = self.take_inner();
        let r = inner.release(block);
        self.put_inner(inner);
        r
    }

    /// Records that the host wrote into the block's chunk.
    pub fn mark_dirty(&mut self, block: &Block)
        requires
            block_of(old(self)@, *block),
        ensures
            memory_wf(final(self)@),
            final(self)@ == dirtied(old(self)@, *block),
    {
        proof {
            use_type_invariant(&*self);
        }
        let mut inner = self.take_inner();
        let r = inner.mark_dirty(block);
        self.put_inner(inner);
        r
    }

    /// The flush pass: for every mapped, non-coherent chunk with host writes, the range
    /// to flush. Linear chunks come first, then nonlinear ones, each by memory type and
    /// position. Nothing changes until each flush is reported with `mark_flushed`.
    pub fn flushes(&self) -> (r: Vec<FlushRange>)
        ensures
            r@ == all_flushes(self@),
            forall|i: int| 0 <= i < r@.len() ==> range_in(self@, #[trigger] r@[i]),
    {
        proof {
            use_type_invariant(self);
        }
        self.inner.flushes()
    }

    /// Whether `block` names a chunk of this manager (as every block it handed out does).
    pub fn holds(&self, block: &Block) -> (r: bool)
        ensures
            r == block_of(self@, *block),
    {
        proof {
            use_type_invariant(self);
        }
        self.inner.holds(block)
    }

    /// Writes one element of `elem_size` bytes at element position `offset` (0 when not
    /// given): gives the byte offset in the block where it goes and marks the block's
    /// chunk as written. Fails with `MemoryNotHostWritable`, changing nothing, when the
    /// block is not host visible. The element must lie inside the block.
    pub fn write_one(&mut self, block: &Block, elem_size: usize, offset: Option<usize>) -> (r: Result<usize, Error>)
        requires
            block_of(old(self)@, *block),
            stride_ok(*block, elem_size),
            block.host_visible ==> block_stride(*block, elem_size) * (offset.unwrap_or(0) + 1) <= (block.size as usize),
        ensures
            memory_wf(final(self)@),
            !block.host_visible ==> r == Err::<usize, Error>(Error::MemoryNotHostWritable)
                && final(self)@ == old(self)@,
            block.host_visible ==> r == Ok::<usize, Error>((offset.unwrap_or(0) * block_stride(*block, elem_size)) as usize)
                && final(self)@ == dirtied(old(self)@, *block),
    {
        proof {
            use_type_invariant(&*self);
        }
        let mut inner = self.take_inner();
        let r = inner.write_one(block, elem_size, offset);
        self.put_inner(inner);
        r
    }

    /// Writes `count` elements of `elem_size` bytes from element position `offset` (0 when
    /// not given): element `j` goes to byte `start + j * stride` of the block, and the
    /// result is `(start, stride)`, with `start` the byte offset of element `offset`.
    /// Marks the block's chunk as written; fails with `MemoryNotHostWritable`, changing
    /// nothing, when the block is not host visible. The elements must lie inside the block.
    pub fn write_array(&mut self, block: &Block, elem_size: usize, count: usize, offset: Option<usize>)
        -> (r: Result<(usize, usize), Error>)
        requires
            block_of(old(self)@, *block),
            stride_ok(*block, elem_size),
            block.host_visible ==> block_stride(*block, elem_size) * (offset.unwrap_or(0) + count) <= (block.size as usize),
        ensures
            memory_wf(final(self)@),
            !block.host_visible ==> r == Err::<(usize, usize), Error>(Error::MemoryNotHostWritable)
                && final(self)@ == old(self)@,
            block.host_visible ==> r == Ok::<(usize, usize), Error>((
                (offset.unwrap_or(0) * block_stride(*block, elem_size)) as usize,
                block_stride(*block, elem_size) as usize,
            )) && final(self)@ == dirtied(old(self)@, *block),
    {
        proof {
            use_type_invariant(&*self);
        }
        let mut inner = self.take_inner();
        let r = inner.write_array(block, elem_size, count, offset);
        self.put_inner(inner);
        r
    }

    /// A byte-stream write of `buf_len` bytes into `block` (see `Block::stdio_write`),
    /// marking the block's chunk as written when the block is host visible.
    pub fn stdio_write(&mut self, block: &mut Block, buf_len: usize) -> (r: Result<(u64, u64), Error>)
        requires
            block_of(old(self)@, *old(block)),
            old(block).stdio_write_offset <= old(block).size,
        ensures
            memory_wf(final(self)@),
            ({
                let room = old(block).size - old(block).stdio_write_offset;
                let n = if buf_len as int <= room { buf_len as int } else { room };
                &&& !old(block).host_visible ==> r == Err::<(u64, u64), Error>(Error::MemoryNotHostWritable)
                    && *final(block) == *old(block) && final(self)@ == old(self)@
                &&& old(block).host_visible ==> r == Ok::<(u64, u64), Error>((old(block).stdio_write_offset, n as u64))
                    && *final(block) == (Block { stdio_write_offset: (old(block).stdio_write_offset + n) as u64, ..*old(block) })
                    && final(self)@ == dirtied(old(self)@, *old(block))
            }),
    {
        proof {
            use_type_invariant(&*self);
        }
        let mut inner = self.take_inner();
        let r = inner.stdio_write(block, buf_len);
        self.put_inner(inner);
        r
    }

    /// Records that the flush of `range` succeeded: its chunk's dirty bit is cleared.
    /// Gives false, changing nothing, when the range names no chunk of this manager.
    pub fn mark_flushed(&mut self, range: &FlushRange) -> (ok: bool)
        ensures
            memory_wf(final(self)@),
            ok == range_in(old(self)@, *range),
            ok ==> ({
                let m = old(self)@;
                let l = range.linearity.spec_index() as int;
                let t = range.memory_type_index as int;
                let k = range.chunk_number as int;
                let cs = m.chunks[l][t];
                final(self)@ == with_list(m, l, t, cs.update(k, ChunkState { dirty: false, ..cs[k] }))
            }),
            !ok ==> final(self)@ == old(self)@,
    {
        proof {
            use_type_invariant(&*self);
        }
        let mut inner = self.take_inner();
        let r = inner.mark_flushed(range);
        self.put_inner(inner);
        r
    }
}

fn max(a: u64, b: u64) -> (r: u64)
    ensures
        r == max_u64(a, b),
{
    if a >= b { a } else { b }
}

} // verus!
