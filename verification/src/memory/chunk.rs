//! A chunk of device memory and the blocks carved out of it.
//!
//! Temporary blocks are placed first-fit from the bottom of the chunk and
//! kept sorted by offset; permanent blocks are stacked down from the top and
//! can never be freed. Dropped temporary blocks are remembered on a free list
//! and swept out at the next temporary allocation.
use vstd::prelude::*;

use super::align::{align_down, align_up, is_power_of_two, round_down, round_up,
    lemma_power_of_two_bound, lemma_round_up, lemma_round_up_least, lemma_round_down, lemma_round_down_greatest};
use super::types::{Block, BlockInfo, BlockRecord, Lifetime, Linearity, MemoryType,
    MEMORY_PROPERTY_HOST_COHERENT, MEMORY_PROPERTY_HOST_VISIBLE};

verus! {

/// Size of every chunk requested from the driver: 32 MB.
pub const CHUNK_SIZE: u64 = 32 * 1048576;

/// A chunk of device memory of one memory type.
pub struct Chunk {
    /// Handle of the device memory that backs the chunk.
    pub memory: u64,
    /// Whether the chunk is mapped into host memory (it is when host visible).
    pub mapped: bool,
    /// Temporary blocks, kept in order of offset.
    pub blocks: Vec<BlockInfo>,
    /// Offsets of blocks which have been dropped.
    pub freelist: Vec<u64>,
    pub memory_type_index: u32,
    pub memory_type: MemoryType,
    /// Top of the free region, beyond which are the permanent blocks.
    pub start_of_perm: u64,
    /// Permanent blocks, from the top down, in the order they came.
    pub perm_blocks: Vec<BlockInfo>,
    /// Whether host writes happened since the last flush.
    pub dirty: bool,
    /// Which chunk list the chunk belongs to.
    pub linearity: Linearity,
    /// Position of the chunk in its list.
    pub chunk_number: usize,
}

/// The abstract contents of a chunk.
pub struct ChunkState {
    pub memory: u64,
    pub mapped: bool,
    pub blocks: Seq<BlockRecord>,
    pub freelist: Seq<u64>,
    pub memory_type_index: u32,
    pub memory_type: MemoryType,
    pub start_of_perm: u64,
    pub perm_blocks: Seq<BlockRecord>,
    pub dirty: bool,
    pub linearity: Linearity,
    pub chunk_number: usize,
}

/// The records of a sequence of blocks.
pub open spec fn records(v: Seq<BlockInfo>) -> Seq<BlockRecord> {
    v.map_values(|b: BlockInfo| b@)
}

impl View for Chunk {
    type V = ChunkState;

    open spec fn view(&self) -> ChunkState {
        ChunkState {
            memory: self.memory,
            mapped: self.mapped,
            blocks: records(self.blocks@),
            freelist: self.freelist@,
            memory_type_index: self.memory_type_index,
            memory_type: self.memory_type,
            start_of_perm: self.start_of_perm,
            perm_blocks: records(self.perm_blocks@),
            dirty: self.dirty,
            linearity: self.linearity,
            chunk_number: self.chunk_number,
        }
    }
}

/// One past the last byte of a block.
pub open spec fn rec_end(b: BlockRecord) -> int {
    b.offset + b.size
}

/// Whether two blocks share a byte.
pub open spec fn overlap(a: BlockRecord, b: BlockRecord) -> bool {
    a.offset < rec_end(b) && b.offset < rec_end(a)
}

/// The blocks that remain once every block whose offset is on the free list is dropped.
pub open spec fn live_blocks(blocks: Seq<BlockRecord>, freed: Seq<u64>) -> Seq<BlockRecord>
    decreases blocks.len(),
{
    if blocks.len() == 0 {
        Seq::empty()
    } else {
        let rest = live_blocks(blocks.drop_last(), freed);
        if freed.contains(blocks.last().offset) {
            rest
        } else {
            rest.push(blocks.last())
        }
    }
}

/// First-fit search for a hole of more than `size` bytes, starting at block `i`
/// with candidate offset `p`. Candidates are 0 and the aligned end of each block;
/// the hole must end strictly before the next block (or the permanent region).
/// Gives the position at which the new block is inserted and its offset.
pub open spec fn first_fit_from(
    blocks: Seq<BlockRecord>,
    i: int,
    p: int,
    size: u64,
    alignment: u64,
    top: u64,
) -> Option<(int, int)>
    decreases blocks.len() - i,
{
    if i >= blocks.len() {
        if top > p + size {
            Some((blocks.len() as int, p))
        } else {
            None
        }
    } else if i < 0 {
        None
    } else if blocks[i].offset > p + size {
        Some((i, p))
    } else {
        first_fit_from(blocks, i + 1, round_up(rec_end(blocks[i]), alignment as int), size,
            alignment, top)
    }
}

/// First-fit placement of a temporary block among `blocks` below `top`.
pub open spec fn first_fit(blocks: Seq<BlockRecord>, size: u64, alignment: u64, top: u64) -> Option<(int, int)> {
    first_fit_from(blocks, 0, 0, size, alignment, top)
}

/// Placement of a permanent block: just below the permanent region, rounded
/// down to the alignment, if that stays above the last temporary block.
pub open spec fn perm_fit(blocks: Seq<BlockRecord>, start_of_perm: u64, size: u64, alignment: u64) -> Option<int> {
    if size > start_of_perm {
        None
    } else {
        let o = round_down(start_of_perm - size, alignment as int);
        if blocks.len() > 0 && rec_end(blocks.last()) > o {
            None
        } else {
            Some(o)
        }
    }
}

/// The block handed out for a placement at `offset` in chunk `c`.
pub open spec fn block_at(c: ChunkState, offset: u64, size: u64, element_alignment: u64) -> Block {
    Block {
        memory: c.memory,
        host_visible: c.mapped,
        offset_in_chunk: offset,
        size: size,
        stdio_write_offset: 0,
        memory_type_index: c.memory_type_index,
        is_coherent: c.memory_type.property_flags & MEMORY_PROPERTY_HOST_COHERENT != 0,
        element_alignment: element_alignment,
        linearity: c.linearity,
        chunk_number: c.chunk_number,
    }
}

/// What an allocation does to a chunk, and the block it hands out.
pub open spec fn allocate_spec(
    c: ChunkState,
    size: u64,
    alignment: u64,
    element_alignment: u64,
    lifetime: Lifetime,
    reason: Seq<char>,
) -> (ChunkState, Option<Block>) {
    match lifetime {
        Lifetime::Permanent => match perm_fit(c.blocks, c.start_of_perm, size, alignment) {
            None => (c, None),
            Some(o) => (
                ChunkState {
                    start_of_perm: o as u64,
                    perm_blocks: c.perm_blocks.push(BlockRecord { offset: o as u64, size, reason }),
                    ..c
                },
                Some(block_at(c, o as u64, size, element_alignment)),
            ),
        },
        Lifetime::Temporary => {
            let live = live_blocks(c.blocks, c.freelist);
            let swept = ChunkState { blocks: live, freelist: Seq::empty(), ..c };
            match first_fit(live, size, alignment, c.start_of_perm) {
                None => (swept, None),
                Some((i, o)) => (
                    ChunkState {
                        blocks: live.insert(i, BlockRecord { offset: o as u64, size, reason }),
                        ..swept
                    },
                    Some(block_at(c, o as u64, size, element_alignment)),
                ),
            }
        },
    }
}

/// The layout invariant of a chunk: temporary blocks sorted and disjoint below
/// the permanent region, permanent blocks disjoint inside it, all inside the chunk.
pub open spec fn chunk_wf(c: ChunkState) -> bool {
    &&& c.start_of_perm <= CHUNK_SIZE
    &&& forall|i: int, j: int|
        0 <= i < j < c.blocks.len() ==> rec_end(#[trigger] c.blocks[i]) <= (#[trigger] c.blocks[j]).offset
    &&& forall|i: int| 0 <= i < c.blocks.len() ==> rec_end(#[trigger] c.blocks[i]) <= c.start_of_perm
    &&& forall|i: int|
        0 <= i < c.perm_blocks.len() ==> c.start_of_perm <= (#[trigger] c.perm_blocks[i]).offset
            && rec_end(c.perm_blocks[i]) <= CHUNK_SIZE
    &&& forall|i: int, j: int|
        0 <= i < j < c.perm_blocks.len() ==> rec_end(#[trigger] c.perm_blocks[j])
            <= (#[trigger] c.perm_blocks[i]).offset
}

/// Sorted, disjoint blocks below a bound.
pub open spec fn sorted_below(s: Seq<BlockRecord>, top: int) -> bool {
    &&& forall|i: int, j: int| 0 <= i < j < s.len() ==> rec_end(#[trigger] s[i]) <= (#[trigger] s[j]).offset
    &&& forall|i: int| 0 <= i < s.len() ==> rec_end(#[trigger] s[i]) <= top
}

/// Dropping freed blocks keeps a sorted list sorted and under the same bound,
/// and keeps only blocks of the original list.
pub proof fn lemma_live_blocks_sorted(s: Seq<BlockRecord>, freed: Seq<u64>, top: int)
    requires
        sorted_below(s, top),
    ensures
        sorted_below(live_blocks(s, freed), top),
        forall|k: int| 0 <= k < live_blocks(s, freed).len() ==> s.contains(#[trigger] live_blocks(s, freed)[k]),
        live_blocks(s, freed).len() <= s.len(),
        s.len() > 0 ==> forall|k: int| 0 <= k < live_blocks(s, freed).len()
            ==> rec_end(#[trigger] live_blocks(s, freed)[k]) <= rec_end(s.last()),
    decreases s.len(),
{
    if s.len() > 0 {
        let init = s.drop_last();
        assert(sorted_below(init, top));
        lemma_live_blocks_sorted(init, freed, top);
        let rest = live_blocks(init, freed);
        assert forall|k: int| 0 <= k < rest.len() implies s.contains(#[trigger] rest[k]) by {
            let w = choose|w: int| 0 <= w < init.len() && init[w] == rest[k];
            assert(s[w] == rest[k]);
        }
        assert forall|k: int| 0 <= k < rest.len() implies rec_end(#[trigger] rest[k]) <= s.last().offset by {
            let w = choose|w: int| 0 <= w < init.len() && init[w] == rest[k];
            assert(s[w] == init[w]);
            assert(rec_end(s[w]) <= s[s.len() - 1].offset);
        }
        if !freed.contains(s.last().offset) {
            let r = rest.push(s.last());
            assert(s.contains(s.last())) by {
                assert(s[s.len() - 1] == s.last());
            }
            assert forall|k: int| 0 <= k < r.len() implies s.contains(#[trigger] r[k]) by {
                if k < rest.len() {
                    assert(r[k] == rest[k]);
                }
            }
            assert(sorted_below(r, top)) by {
                assert(rec_end(s[s.len() - 1]) <= top);
                assert forall|i: int, j: int| 0 <= i < j < r.len() implies rec_end(#[trigger] r[i]) <= (#[trigger] r[j]).offset by {
                    if j < rest.len() {
                        assert(r[i] == rest[i] && r[j] == rest[j]);
                    } else {
                        assert(r[i] == rest[i]);
                    }
                }
            }
        } else {
            if s.len() > 1 {
                assert forall|k: int| 0 <= k < rest.len() implies rec_end(#[trigger] rest[k]) <= rec_end(s.last()) by {
                }
            }
        }
    }
}

/// Inserting a block into a sorted list at a place where it fits keeps the list sorted.
pub proof fn lemma_insert_sorted(s: Seq<BlockRecord>, pos: int, r: BlockRecord, top: int)
    requires
        sorted_below(s, top),
        0 <= pos <= s.len(),
        forall|k: int| 0 <= k < pos ==> rec_end(#[trigger] s[k]) <= r.offset,
        pos < s.len() ==> rec_end(r) <= s[pos].offset,
        rec_end(r) <= top,
    ensures
        sorted_below(s.insert(pos, r), top),
{
    let t = s.insert(pos, r);
    assert forall|i: int, j: int| 0 <= i < j < t.len() implies rec_end(#[trigger] t[i]) <= (#[trigger] t[j]).offset by {
        if j < pos {
            assert(t[i] == s[i] && t[j] == s[j]);
        } else if j == pos {
            assert(t[i] == s[i]);
        } else if i < pos {
            assert(t[i] == s[i] && t[j] == s[j - 1]);
            assert(rec_end(s[i]) <= s[j - 1].offset);
        } else if i == pos {
            assert(t[j] == s[j - 1]);
            if j - 1 > pos {
                assert(rec_end(s[pos]) <= s[j - 1].offset);
            }
        } else {
            assert(t[i] == s[i - 1] && t[j] == s[j - 1]);
        }
    }
    assert forall|i: int| 0 <= i < t.len() implies rec_end(#[trigger] t[i]) <= top by {
        if i < pos {
            assert(t[i] == s[i]);
        } else if i > pos {
            assert(t[i] == s[i - 1]);
        }
    }
}

/// What first-fit finds: a hole above every block before the insertion point,
/// strictly below the block after it and below the top, at an aligned offset.
pub proof fn lemma_first_fit_from(
    blocks: Seq<BlockRecord>,
    i: int,
    p: int,
    size: u64,
    alignment: u64,
    top: u64,
)
    requires
        sorted_below(blocks, top as int),
        0 <= i <= blocks.len(),
        p >= 0,
        p % (alignment as int) == 0,
        is_power_of_two(alignment),
        forall|k: int| 0 <= k < i ==> rec_end(#[trigger] blocks[k]) <= p,
    ensures
        match first_fit_from(blocks, i, p, size, alignment, top) {
            Some((pos, o)) => {
                &&& i <= pos <= blocks.len()
                &&& o >= 0
                &&& o % (alignment as int) == 0
                &&& forall|k: int| 0 <= k < pos ==> rec_end(#[trigger] blocks[k]) <= o
                &&& pos < blocks.len() ==> o + size < blocks[pos].offset
                &&& o + size < top
            },
            None => true,
        },
    decreases blocks.len() - i,
{
    lemma_power_of_two_bound(alignment);
    if i < blocks.len() && !(blocks[i].offset > p + size) {
        let e = rec_end(blocks[i]);
        lemma_round_up(e, alignment as int);
        let q = round_up(e, alignment as int);
        assert forall|k: int| 0 <= k < i + 1 implies rec_end(#[trigger] blocks[k]) <= q by {
            if k < i {
                assert(rec_end(blocks[k]) <= blocks[i].offset);
            }
        }
        lemma_first_fit_from(blocks, i + 1, q, size, alignment, top);
    } else if i < blocks.len() {
        assert(rec_end(blocks[i]) <= top);
    }
}

/// An allocation keeps a chunk well formed.
pub proof fn lemma_allocate_preserves_wf(
    c: ChunkState,
    size: u64,
    alignment: u64,
    element_alignment: u64,
    lifetime: Lifetime,
    reason: Seq<char>,
)
    requires
        chunk_wf(c),
        is_power_of_two(alignment),
    ensures
        chunk_wf(allocate_spec(c, size, alignment, element_alignment, lifetime, reason).0),
{
    lemma_power_of_two_bound(alignment);
    let (d, r) = allocate_spec(c, size, alignment, element_alignment, lifetime, reason);
    match lifetime {
        Lifetime::Permanent => {
            if let Some(o) = perm_fit(c.blocks, c.start_of_perm, size, alignment) {
                lemma_round_down(c.start_of_perm - size, alignment as int);
                let n = c.perm_blocks.len();
                assert forall|i: int| 0 <= i < d.blocks.len() implies rec_end(#[trigger] d.blocks[i]) <= d.start_of_perm by {
                    if i < d.blocks.len() - 1 {
                        assert(rec_end(c.blocks[i]) <= c.blocks[c.blocks.len() - 1].offset);
                    }
                }
                assert forall|i: int| 0 <= i < d.perm_blocks.len() implies d.start_of_perm <= (#[trigger] d.perm_blocks[i]).offset
                    && rec_end(d.perm_blocks[i]) <= CHUNK_SIZE by {
                    if i < n {
                        assert(d.perm_blocks[i] == c.perm_blocks[i]);
                    }
                }
                assert forall|i: int, j: int| 0 <= i < j < d.perm_blocks.len() implies rec_end(#[trigger] d.perm_blocks[j])
                    <= (#[trigger] d.perm_blocks[i]).offset by {
                    assert(d.perm_blocks[i] == c.perm_blocks[i]);
                    if j < n {
                        assert(d.perm_blocks[j] == c.perm_blocks[j]);
                    }
                }
            }
        },
        Lifetime::Temporary => {
            let live = live_blocks(c.blocks, c.freelist);
            assert(sorted_below(c.blocks, c.start_of_perm as int));
            lemma_live_blocks_sorted(c.blocks, c.freelist, c.start_of_perm as int);
            lemma_first_fit_from(live, 0, 0, size, alignment, c.start_of_perm);
            if let Some((pos, o)) = first_fit(live, size, alignment, c.start_of_perm) {
                let rec = BlockRecord { offset: o as u64, size, reason };
                lemma_insert_sorted(live, pos, rec, c.start_of_perm as int);
            }
        },
    }
}

/// In a well-formed chunk no two blocks share a byte, and every block lies inside the chunk.
pub proof fn lemma_wf_blocks_disjoint(c: ChunkState)
    requires
        chunk_wf(c),
    ensures
        forall|i: int, j: int|
            0 <= i < c.blocks.len() && 0 <= j < c.blocks.len() && i != j
                ==> !overlap(#[trigger] c.blocks[i], #[trigger] c.blocks[j]),
        forall|i: int, j: int|
            0 <= i < c.perm_blocks.len() && 0 <= j < c.perm_blocks.len() && i != j
                ==> !overlap(#[trigger] c.perm_blocks[i], #[trigger] c.perm_blocks[j]),
        forall|i: int, j: int|
            0 <= i < c.blocks.len() && 0 <= j < c.perm_blocks.len()
                ==> !overlap(#[trigger] c.blocks[i], #[trigger] c.perm_blocks[j]),
        forall|i: int| 0 <= i < c.blocks.len() ==> rec_end(#[trigger] c.blocks[i]) <= CHUNK_SIZE,
        forall|i: int| 0 <= i < c.perm_blocks.len() ==> rec_end(#[trigger] c.perm_blocks[i]) <= CHUNK_SIZE,
{
    assert forall|i: int, j: int|
        0 <= i < c.blocks.len() && 0 <= j < c.blocks.len() && i != j
            implies !overlap(#[trigger] c.blocks[i], #[trigger] c.blocks[j]) by {
        if i < j {
            assert(rec_end(c.blocks[i]) <= c.blocks[j].offset);
        } else {
            assert(rec_end(c.blocks[j]) <= c.blocks[i].offset);
        }
    }
    assert forall|i: int, j: int|
        0 <= i < c.perm_blocks.len() && 0 <= j < c.perm_blocks.len() && i != j
            implies !overlap(#[trigger] c.perm_blocks[i], #[trigger] c.perm_blocks[j]) by {
        if i < j {
            assert(rec_end(c.perm_blocks[j]) <= c.perm_blocks[i].offset);
        } else {
            assert(rec_end(c.perm_blocks[i]) <= c.perm_blocks[j].offset);
        }
    }
    assert forall|i: int, j: int|
        0 <= i < c.blocks.len() && 0 <= j < c.perm_blocks.len()
            implies !overlap(#[trigger] c.blocks[i], #[trigger] c.perm_blocks[j]) by {
        assert(rec_end(c.blocks[i]) <= c.start_of_perm);
        assert(c.start_of_perm <= c.perm_blocks[j].offset);
    }
}

/// A successful allocation hands out a block that the chunk now records, that lies
/// inside the chunk, and whose offset is a multiple of the requested alignment.
/// Together with `lemma_wf_blocks_disjoint` this says that it shares no byte with
/// any other block of the chunk.
pub proof fn lemma_allocation_placed(
    c: ChunkState,
    size: u64,
    alignment: u64,
    element_alignment: u64,
    lifetime: Lifetime,
    reason: Seq<char>,
)
    requires
        chunk_wf(c),
        is_power_of_two(alignment),
    ensures
        ({
            let (d, r) = allocate_spec(c, size, alignment, element_alignment, lifetime, reason);
            r matches Some(b) ==> {
                &&& b.offset_in_chunk % alignment == 0
                &&& b.offset_in_chunk + b.size <= CHUNK_SIZE
                &&& b.size == size
                &&& lifetime == Lifetime::Temporary ==> exists|i: int|
                    0 <= i < d.blocks.len() && #[trigger] d.blocks[i] == (BlockRecord {
                        offset: b.offset_in_chunk,
                        size,
                        reason,
                    })
                &&& lifetime == Lifetime::Permanent ==> d.perm_blocks.last() == (BlockRecord {
                    offset: b.offset_in_chunk,
                    size,
                    reason,
                })
            }
        }),
{
    lemma_power_of_two_bound(alignment);
    lemma_allocate_preserves_wf(c, size, alignment, element_alignment, lifetime, reason);
    let (d, r) = allocate_spec(c, size, alignment, element_alignment, lifetime, reason);
    match lifetime {
        Lifetime::Permanent => {
            if let Some(o) = perm_fit(c.blocks, c.start_of_perm, size, alignment) {
                lemma_round_down(c.start_of_perm - size, alignment as int);
            }
        },
        Lifetime::Temporary => {
            let live = live_blocks(c.blocks, c.freelist);
            lemma_live_blocks_sorted(c.blocks, c.freelist, c.start_of_perm as int);
            lemma_first_fit_from(live, 0, 0, size, alignment, c.start_of_perm);
            if let Some((pos, o)) = first_fit(live, size, alignment, c.start_of_perm) {
                assert(d.blocks[pos] == (BlockRecord { offset: o as u64, size, reason }));
            }
        },
    }
}

/// A permanent block goes as high as it can: at the highest multiple of the alignment
/// at which it ends within the space below the permanent region, which then starts at
/// the block; it is refused exactly when no multiple of the alignment leaves it both
/// within that space and clear of the last temporary block.
pub proof fn lemma_permanent_placement(
    c: ChunkState,
    size: u64,
    alignment: u64,
    element_alignment: u64,
    reason: Seq<char>,
)
    requires
        is_power_of_two(alignment),
    ensures
        ({
            let (d, r) = allocate_spec(c, size, alignment, element_alignment, Lifetime::Permanent, reason);
            &&& r matches Some(b) ==> {
                &&& b.offset_in_chunk % alignment == 0
                &&& b.offset_in_chunk + size <= c.start_of_perm < b.offset_in_chunk + alignment + size
                &&& c.blocks.len() > 0 ==> rec_end(c.blocks.last()) <= b.offset_in_chunk
                &&& d.start_of_perm == b.offset_in_chunk
            }
            &&& r is None <==> !exists|o: int| {
                &&& 0 <= o
                &&& #[trigger] (o % (alignment as int)) == 0
                &&& o + size <= c.start_of_perm
                &&& c.blocks.len() > 0 ==> rec_end(c.blocks.last()) <= o
            }
        }),
{
    lemma_power_of_two_bound(alignment);
    let a = alignment as int;
    if size <= c.start_of_perm {
        let x = c.start_of_perm - size;
        lemma_round_down(x, a);
        let o = round_down(x, a);
        assert(o % a == 0);
        assert forall|o2: int| 0 <= o2 && #[trigger] (o2 % a) == 0 && o2 + size <= c.start_of_perm implies o2
            <= o by {
            lemma_round_down_greatest(x, a, o2);
        }
    }
}

/// A fresh chunk always takes a permanent block of up to `CHUNK_SIZE` bytes, and takes
/// a temporary block exactly when it is smaller than `CHUNK_SIZE` (the hole must be
/// strictly larger than the block).
pub proof fn lemma_fresh_chunk_allocation(
    c: ChunkState,
    size: u64,
    alignment: u64,
    element_alignment: u64,
    lifetime: Lifetime,
    reason: Seq<char>,
)
    requires
        c.blocks.len() == 0,
        c.start_of_perm == CHUNK_SIZE,
        is_power_of_two(alignment),
    ensures
        allocate_spec(c, size, alignment, element_alignment, lifetime, reason).1 is Some
            <==> (size < CHUNK_SIZE || (lifetime == Lifetime::Permanent && size == CHUNK_SIZE)),
{
    lemma_power_of_two_bound(alignment);
    if size <= CHUNK_SIZE {
        lemma_round_down(CHUNK_SIZE - size, alignment as int);
    }
    assert(live_blocks(c.blocks, c.freelist) =~= Seq::<BlockRecord>::empty());
}

/// No hole of a chunk is larger than the whole free region: a temporary block of at
/// least `top` bytes never fits below `top`.
pub proof fn lemma_first_fit_too_big(blocks: Seq<BlockRecord>, i: int, p: int, size: u64, alignment: u64, top: u64)
    requires
        sorted_below(blocks, top as int),
        0 <= i,
        p >= 0,
        size >= top,
        is_power_of_two(alignment),
    ensures
        first_fit_from(blocks, i, p, size, alignment, top) is None,
    decreases blocks.len() - i,
{
    if i < blocks.len() {
        assert(rec_end(blocks[i]) <= top);
        lemma_power_of_two_bound(alignment);
        lemma_round_up(rec_end(blocks[i]), alignment as int);
        lemma_first_fit_too_big(blocks, i + 1, round_up(rec_end(blocks[i]), alignment as int), size, alignment, top);
    }
}

/// A temporary block of `size` bytes can start at `q` among the live blocks `live`
/// below `top`: `q` is aligned, and the free space from `q` up to the next block (or
/// to `top`) is strictly larger than the block.
pub open spec fn fits_at(live: Seq<BlockRecord>, q: int, size: u64, alignment: u64, top: u64) -> bool {
    &&& q >= 0
    &&& q % (alignment as int) == 0
    &&& q + size < top
    &&& forall|k: int| 0 <= k < live.len() ==> q + size < (#[trigger] live[k]).offset || rec_end(live[k]) <= q
}

/// From candidate `p` on, the search reaches a place no higher than any fitting offset
/// `q` at or above `p`.
proof fn lemma_first_fit_reaches(
    blocks: Seq<BlockRecord>,
    i: int,
    p: int,
    size: u64,
    alignment: u64,
    top: u64,
    q: int,
)
    requires
        sorted_below(blocks, top as int),
        0 <= i,
        0 <= p <= q,
        is_power_of_two(alignment),
        fits_at(blocks, q, size, alignment, top),
    ensures
        first_fit_from(blocks, i, p, size, alignment, top) matches Some((pos, o)) && o <= q,
    decreases blocks.len() - i,
{
    lemma_power_of_two_bound(alignment);
    if i < blocks.len() && !(blocks[i].offset > p + size) {
        assert(rec_end(blocks[i]) <= q);
        lemma_round_up(rec_end(blocks[i]), alignment as int);
        lemma_round_up_least(rec_end(blocks[i]), alignment as int, q);
        lemma_first_fit_reaches(blocks, i + 1, round_up(rec_end(blocks[i]), alignment as int), size, alignment,
            top, q);
    }
}

/// First fit places a temporary block at the lowest aligned offset whose free space
/// (among the live blocks, below the permanent region) is strictly larger than the
/// block, and fails exactly when there is no such offset.
pub proof fn lemma_first_fit_is_lowest(
    c: ChunkState,
    size: u64,
    alignment: u64,
    element_alignment: u64,
    reason: Seq<char>,
)
    requires
        chunk_wf(c),
        is_power_of_two(alignment),
    ensures
        ({
            let live = live_blocks(c.blocks, c.freelist);
            let r = allocate_spec(c, size, alignment, element_alignment, Lifetime::Temporary, reason).1;
            &&& r matches Some(b) ==> fits_at(live, b.offset_in_chunk as int, size, alignment, c.start_of_perm)
                && forall|q: int| #[trigger] fits_at(live, q, size, alignment, c.start_of_perm) ==> b.offset_in_chunk <= q
            &&& r is None <==> forall|q: int| !#[trigger] fits_at(live, q, size, alignment, c.start_of_perm)
        }),
{
    lemma_power_of_two_bound(alignment);
    let live = live_blocks(c.blocks, c.freelist);
    let top = c.start_of_perm;
    lemma_live_blocks_sorted(c.blocks, c.freelist, top as int);
    lemma_first_fit_from(live, 0, 0, size, alignment, top);
    assert forall|q: int| #[trigger] fits_at(live, q, size, alignment, top) implies
        first_fit(live, size, alignment, top) matches Some((pos, o)) && o <= q by {
        lemma_first_fit_reaches(live, 0, 0, size, alignment, top, q);
    }
    if let Some((pos, o)) = first_fit(live, size, alignment, top) {
        assert forall|k: int| 0 <= k < live.len() implies o + size < (#[trigger] live[k]).offset
            || rec_end(live[k]) <= o by {
            if k > pos {
                assert(rec_end(live[pos]) <= live[k].offset);
            }
        }
        assert(fits_at(live, o, size, alignment, top));
    }
}

/// A list none of whose blocks starts at a freed offset is all live.
proof fn lemma_live_unfreed(s: Seq<BlockRecord>, f: Seq<u64>)
    requires
        forall|k: int| 0 <= k < s.len() ==> !f.contains(#[trigger] s[k].offset),
    ensures
        live_blocks(s, f) == s,
    decreases s.len(),
{
    if s.len() > 0 {
        let init = s.drop_last();
        assert forall|k: int| 0 <= k < init.len() implies !f.contains(#[trigger] init[k].offset) by {
            assert(init[k] == s[k]);
        }
        lemma_live_unfreed(init, f);
        assert(!f.contains(s[s.len() - 1].offset));
        assert(init.push(s.last()) =~= s);
    }
}

/// A block whose offset is freed does not count, wherever it stands in the list.
proof fn lemma_live_insert_freed(s: Seq<BlockRecord>, i: int, x: BlockRecord, f: Seq<u64>)
    requires
        0 <= i <= s.len(),
        f.contains(x.offset),
    ensures
        live_blocks(s.insert(i, x), f) == live_blocks(s, f),
    decreases s.len(),
{
    let t = s.insert(i, x);
    if i == s.len() {
        assert(t.drop_last() =~= s);
        assert(t.last() == x);
    } else {
        lemma_live_insert_freed(s.drop_last(), i, x, f);
        assert(t.drop_last() =~= s.drop_last().insert(i, x));
        assert(t.last() == s.last());
    }
}

/// Giving a temporary block back undoes its allocation: once its offset is on the
/// chunk's free list, the chunk's live blocks are exactly those it had before the
/// block was allocated. (Live blocks of size zero are left out: such a block can start
/// at the offset the new block gets, and would be freed with it.)
pub proof fn lemma_release_undoes_allocate(
    c: ChunkState,
    size: u64,
    alignment: u64,
    element_alignment: u64,
    reason: Seq<char>,
)
    requires
        chunk_wf(c),
        is_power_of_two(alignment),
        forall|k: int| 0 <= k < live_blocks(c.blocks, c.freelist).len()
            ==> (#[trigger] live_blocks(c.blocks, c.freelist)[k]).size > 0,
    ensures
        ({
            let (d, r) = allocate_spec(c, size, alignment, element_alignment, Lifetime::Temporary, reason);
            r matches Some(b) ==> live_blocks(d.blocks, d.freelist.push(b.offset_in_chunk))
                == live_blocks(c.blocks, c.freelist)
        }),
{
    lemma_power_of_two_bound(alignment);
    let live = live_blocks(c.blocks, c.freelist);
    lemma_live_blocks_sorted(c.blocks, c.freelist, c.start_of_perm as int);
    lemma_first_fit_from(live, 0, 0, size, alignment, c.start_of_perm);
    let (d, r) = allocate_spec(c, size, alignment, element_alignment, Lifetime::Temporary, reason);
    if let Some((pos, o)) = first_fit(live, size, alignment, c.start_of_perm) {
        let f = d.freelist.push(o as u64);
        assert(f =~= seq![o as u64]);
        assert forall|k: int| 0 <= k < live.len() implies !f.contains(#[trigger] live[k].offset) by {
            if f.contains(live[k].offset) {
                let w = choose|w: int| 0 <= w < f.len() && f[w] == live[k].offset;
                assert(live[k].offset == o);
                if k < pos {
                    assert(rec_end(live[k]) <= o);
                    assert(live[k].size > 0);
                } else if k == pos {
                    assert(o + size < live[pos].offset);
                } else {
                    assert(rec_end(live[pos]) <= live[k].offset);
                    assert(o + size < live[pos].offset);
                }
            }
        }
        lemma_live_unfreed(live, f);
        assert(f.contains(o as u64)) by {
            assert(f[0] == o as u64);
        }
        lemma_live_insert_freed(live, pos, BlockRecord { offset: o as u64, size, reason }, f);
    }
}

/// Whether `v` holds `x`.
fn contains_offset(v: &Vec<u64>, x: u64) -> (r: bool)
    ensures
        r == v@.contains(x),
{
    let mut i: usize = 0;
    while i < v.len()
        invariant
            0 <= i <= v.len(),
            forall|k: int| 0 <= k < i ==> v@[k] != x,
        decreases v.len() - i,
    {
        if v[i] == x {
            assert(v@[i as int] == x);
            return true;
        }
        i = i + 1;
    }
    false
}

impl Chunk {
    /// A fresh, empty chunk over the device memory `memory` of the given type.
    /// The caller maps the memory into the host when the type is host visible.
    pub fn new(
        memory: u64,
        memory_type_index: u32,
        memory_type: MemoryType,
        linearity: Linearity,
        chunk_number: usize,
    ) -> (c: Chunk)
        ensures
            c@.memory == memory,
            c@.mapped == (memory_type.property_flags & MEMORY_PROPERTY_HOST_VISIBLE != 0),
            c@.blocks == Seq::<BlockRecord>::empty(),
            c@.freelist == Seq::<u64>::empty(),
            c@.memory_type_index == memory_type_index,
            c@.memory_type == memory_type,
            c@.start_of_perm == CHUNK_SIZE,
            c@.perm_blocks == Seq::<BlockRecord>::empty(),
            !c@.dirty,
            c@.linearity == linearity,
            c@.chunk_number == chunk_number,
            chunk_wf(c@),
    {
        let c = Chunk {
            memory,
            mapped: memory_type.property_flags & MEMORY_PROPERTY_HOST_VISIBLE != 0,
            blocks: Vec::new(),
            freelist: Vec::new(),
            memory_type_index,
            memory_type,
            start_of_perm: CHUNK_SIZE,
            perm_blocks: Vec::new(),
            dirty: false,
            linearity,
            chunk_number,
        };
        assert(c@.blocks =~= Seq::<BlockRecord>::empty());
        assert(c@.perm_blocks =~= Seq::<BlockRecord>::empty());
        c
    }

    /// Allocates a block of `size` bytes at `alignment`, whose array elements are
    /// aligned to `element_alignment`. Permanent blocks come from the top of the
    /// chunk and are never freed; temporary blocks are placed first-fit after the
    /// blocks on the free list have been swept out. A block of any size may be asked
    /// for: one that does not fit gives `None` (after the sweep, for a temporary one).
    /// Vulkan alignments are powers of two.
    pub fn allocate(
        &mut self,
        size: u64,
        alignment: u64,
        element_alignment: u64,
        lifetime: Lifetime,
        reason: &str,
    ) -> (r: Option<Block>)
        requires
            chunk_wf(old(self)@),
            is_power_of_two(alignment),
        ensures
            (final(self)@, r) == allocate_spec(old(self)@, size, alignment, element_alignment, lifetime, reason@),
            chunk_wf(final(self)@),
    {
        proof {
            lemma_allocate_preserves_wf(self@, size, alignment, element_alignment, lifetime, reason@);
        }
        match lifetime {
            Lifetime::Permanent => self.allocate_perm(size, alignment, element_alignment, reason),
            Lifetime::Temporary => self.allocate_normal(size, alignment, element_alignment, reason),
        }
    }

    fn allocate_perm(&mut self, size: u64, alignment: u64, element_alignment: u64, reason: &str) -> (r: Option<Block>)
        requires
            chunk_wf(old(self)@),
            is_power_of_two(alignment),
        ensures
            (final(self)@, r) == allocate_spec(old(self)@, size, alignment, element_alignment, Lifetime::Permanent, reason@),
    {
        let ghost c = self@;
        let offset = if let Some(unaligned_offset) = self.start_of_perm.checked_sub(size) {
            align_down(unaligned_offset, alignment)
        } else {
            return None;
        };
        let n = self.blocks.len();
        if n > 0 {
            assert(c.blocks.last() == self.blocks@[n - 1]@);
            assert(rec_end(c.blocks[n - 1]) <= c.start_of_perm);
            let last_end = self.blocks[n - 1].end();
            if last_end > offset {
                return None;
            }
        }
        self.start_of_perm = offset;
        let b = self.make_block(offset, size, element_alignment, reason, None);
        Some(b)
    }

    /// Sweeps out the blocks whose offsets are on the free list, then empties the list.
    fn sweep_freed(&mut self)
        ensures
            final(self)@ == (ChunkState {
                blocks: live_blocks(old(self)@.blocks, old(self)@.freelist),
                freelist: Seq::empty(),
                ..old(self)@
            }),
    {
        let ghost orig = self@.blocks;
        let ghost freed = self@.freelist;
        let ghost before = self@;
        let mut i: usize = 0;
        let ghost mut j: int = 0;
        while i < self.blocks.len()
            invariant
                0 <= j <= orig.len(),
                i == live_blocks(orig.take(j), freed).len(),
                records(self.blocks@) == live_blocks(orig.take(j), freed) + orig.skip(j),
                self.freelist@ == freed,
                self@ == (ChunkState { blocks: records(self.blocks@), ..before }),
            decreases self.blocks@.len() - i,
        {
            let ghost cur = records(self.blocks@);
            assert(cur[i as int] == orig[j]);
            assert(orig.take(j + 1).drop_last() =~= orig.take(j));
            assert(orig.take(j + 1).last() == orig[j]);
            let off = self.blocks[i].offset;
            if contains_offset(&self.freelist, off) {
                let _dropped = self.blocks.remove(i);
                proof {
                    assert(records(self.blocks@) =~= cur.remove(i as int));
                    assert(live_blocks(orig.take(j + 1), freed) == live_blocks(orig.take(j), freed));
                    assert(cur.remove(i as int) =~= live_blocks(orig.take(j), freed) + orig.skip(j + 1));
                }
            } else {
                proof {
                    assert(live_blocks(orig.take(j + 1), freed) == live_blocks(orig.take(j), freed).push(orig[j]));
                    assert(cur =~= live_blocks(orig.take(j + 1), freed) + orig.skip(j + 1));
                }
                i = i + 1;
            }
            proof {
                j = j + 1;
            }
        }
        proof {
            assert(orig.skip(j).len() == 0);
            assert(j == orig.len());
            assert(orig.take(j) =~= orig);
            assert(records(self.blocks@) =~= live_blocks(orig, freed));
        }
        self.freelist.clear();
        assert(self@.freelist =~= Seq::<u64>::empty());
    }

    fn allocate_normal(&mut self, size: u64, alignment: u64, element_alignment: u64, reason: &str) -> (r: Option<Block>)
        requires
            chunk_wf(old(self)@),
            is_power_of_two(alignment),
        ensures
            (final(self)@, r) == allocate_spec(old(self)@, size, alignment, element_alignment, Lifetime::Temporary, reason@),
    {
        let ghost c = self@;
        proof {
            lemma_power_of_two_bound(alignment);
            lemma_live_blocks_sorted(c.blocks, c.freelist, c.start_of_perm as int);
        }
        self.sweep_freed();
        let ghost swept = self@;
        let ghost live = swept.blocks;
        if size >= self.start_of_perm {
            proof {
                lemma_first_fit_too_big(live, 0, 0, size, alignment, swept.start_of_perm);
            }
            return None;
        }
        let mut p: u64 = 0;
        let num_blocks = self.blocks.len();
        let mut i: usize = 0;
        while i < num_blocks
            invariant
                c == old(self)@,
                swept == (ChunkState { blocks: live_blocks(c.blocks, c.freelist), freelist: Seq::empty(), ..c }),
                self@ == swept,
                live == records(self.blocks@),
                sorted_below(live, swept.start_of_perm as int),
                swept.start_of_perm <= CHUNK_SIZE,
                num_blocks == self.blocks.len(),
                0 <= i <= num_blocks,
                p <= CHUNK_SIZE + alignment,
                size <= CHUNK_SIZE,
                1 <= alignment <= 0x8000_0000_0000_0000u64,
                is_power_of_two(alignment),
                first_fit(live, size, alignment, swept.start_of_perm)
                    == first_fit_from(live, i as int, p as int, size, alignment, swept.start_of_perm),
            decreases num_blocks - i,
        {
            assert(live[i as int] == self.blocks@[i as int]@);
            assert(rec_end(live[i as int]) <= swept.start_of_perm);
            if self.blocks[i].offset > p + size {
                assert(first_fit_from(live, i as int, p as int, size, alignment, swept.start_of_perm)
                    == Some((i as int, p as int)));
                return Some(self.make_block(p, size, element_alignment, reason, Some(i)));
            } else {
                let e = self.blocks[i].offset + self.blocks[i].size;
                p = align_up(e, alignment);
            }
            i = i + 1;
        }
        if self.start_of_perm > p + size {
            Some(self.make_block(p, size, element_alignment, reason, Some(i)))
        } else {
            None
        }
    }

    fn make_block(
        &mut self,
        offset: u64,
        size: u64,
        element_alignment: u64,
        reason: &str,
        insert_block_at: Option<usize>,
    ) -> (b: Block)
        requires
            insert_block_at matches Some(pos) ==> pos <= old(self).blocks.len(),
        ensures
            b == block_at(old(self)@, offset, size, element_alignment),
            insert_block_at matches Some(pos) ==> final(self)@ == (ChunkState {
                blocks: old(self)@.blocks.insert(pos as int, BlockRecord { offset, size, reason: reason@ }),
                ..old(self)@
            }),
            insert_block_at is None ==> final(self)@ == (ChunkState {
                perm_blocks: old(self)@.perm_blocks.push(BlockRecord { offset, size, reason: reason@ }),
                ..old(self)@
            }),
    {
        let block = Block {
            memory: self.memory,
            host_visible: self.mapped,
            offset_in_chunk: offset,
            size: size,
            stdio_write_offset: 0,
            memory_type_index: self.memory_type_index,
            is_coherent: self.memory_type.property_flags & MEMORY_PROPERTY_HOST_COHERENT != 0,
            element_alignment: element_alignment,
            linearity: self.linearity,
            chunk_number: self.chunk_number,
        };
        let blockinfo = BlockInfo { offset: offset, size: size, reason: reason.to_owned() };
        let ghost old_blocks = self.blocks@;
        let ghost old_perm = self.perm_blocks@;
        match insert_block_at {
            Some(pos) => {
                self.blocks.insert(pos, blockinfo);
                assert(records(self.blocks@) =~= records(old_blocks).insert(pos as int, BlockRecord { offset, size, reason: reason@ }));
            },
            None => {
                self.perm_blocks.push(blockinfo);
                assert(records(self.perm_blocks@) =~= records(old_perm).push(BlockRecord { offset, size, reason: reason@ }));
            },
        }
        block
    }

    /// Marks the offset of a dropped block as free; the block is swept out at the
    /// next temporary allocation.
    pub fn release(&mut self, offset: u64)
        ensures
            final(self)@ == (ChunkState { freelist: old(self)@.freelist.push(offset), ..old(self)@ }),
    {
        self.freelist.push(offset);
    }

    /// Records that the host wrote into the chunk.
    pub fn mark_dirty(&mut self)
        ensures
            final(self)@ == (ChunkState { dirty: true, ..old(self)@ }),
    {
        self.dirty = true;
    }

    /// The range `(offset, size)` of mapped memory to flush, if any: only mapped,
    /// non-coherent chunks with host writes need a flush. The dirty bit stays set
    /// until `mark_flushed` reports the flush as done.
    pub fn flush_range(&self) -> (r: Option<(u64, u64)>)
        ensures
            self@.mapped && self@.memory_type.property_flags & MEMORY_PROPERTY_HOST_COHERENT == 0
                && self@.dirty ==> r == Some((0u64, CHUNK_SIZE)),
            !(self@.mapped && self@.memory_type.property_flags & MEMORY_PROPERTY_HOST_COHERENT == 0
                && self@.dirty) ==> r is None,
    {
        if self.mapped && self.memory_type.property_flags & MEMORY_PROPERTY_HOST_COHERENT == 0 && self.dirty {
            Some((0, CHUNK_SIZE))
        } else {
            None
        }
    }

    /// Records that the chunk's host writes reached the device.
    pub fn mark_flushed(&mut self)
        ensures
            final(self)@ == (ChunkState { dirty: false, ..old(self)@ }),
    {
        self.dirty = false;
    }
}

} // verus!
