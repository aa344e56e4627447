use siege_render::memory::chunk::Chunk;
use siege_render::memory::manager::{AllocStep, Limits, Memory, TypeMatch};
use siege_render::memory::types::{
    Block, Lifetime, Linearity, MemoryRequirements, MemoryType, BUFFER_USAGE_STORAGE_TEXEL_BUFFER,
    BUFFER_USAGE_UNIFORM_BUFFER, BUFFER_USAGE_VERTEX_BUFFER, MEMORY_PROPERTY_DEVICE_LOCAL,
    MEMORY_PROPERTY_HOST_COHERENT, MEMORY_PROPERTY_HOST_VISIBLE,
};
use siege_render::memory::{_stride, align_down, align_up, BlockInfo, CHUNK_SIZE};
use siege_render::Error;

fn host_type() -> MemoryType {
    MemoryType { property_flags: MEMORY_PROPERTY_HOST_VISIBLE, heap_index: 1 }
}

fn coherent_type() -> MemoryType {
    MemoryType { property_flags: MEMORY_PROPERTY_HOST_VISIBLE | MEMORY_PROPERTY_HOST_COHERENT, heap_index: 1 }
}

fn device_type() -> MemoryType {
    MemoryType { property_flags: MEMORY_PROPERTY_DEVICE_LOCAL, heap_index: 0 }
}

fn limits() -> Limits {
    Limits {
        min_uniform_buffer_offset_alignment: 256,
        min_storage_buffer_offset_alignment: 64,
        min_texel_buffer_offset_alignment: 16,
        max_memory_allocation_count: 4096,
    }
}

fn overlaps(a: (u64, u64), b: (u64, u64)) -> bool {
    a.0 < b.0 + b.1 && b.0 < a.0 + a.1
}

#[test]
fn align_up_rounds_to_next_multiple() {
    assert_eq!(align_up(5, 4), 8);
    assert_eq!(align_up(8, 4), 8);
    assert_eq!(align_up(0, 256), 0);
    assert_eq!(align_up(257, 256), 512);
    assert_eq!(align_up(7, 1), 7);
}

#[test]
fn align_up_with_zero_alignment_gives_zero() {
    assert_eq!(align_up(0, 0), 0);
    assert_eq!(align_up(12, 0), 0);
}

#[test]
fn align_down_rounds_to_previous_multiple() {
    assert_eq!(align_down(13, 4), 12);
    assert_eq!(align_down(16, 4), 16);
    assert_eq!(align_down(1000, 256), 768);
    assert_eq!(align_down(5, 0), 0);
}

#[test]
fn block_info_end_is_offset_plus_size() {
    let b = BlockInfo { offset: 256, size: 100, reason: "test".to_string() };
    assert_eq!(b.end(), 356);
}

#[test]
fn stride_rounds_element_size_up() {
    assert_eq!(_stride(10, 4), 12);
    assert_eq!(_stride(12, 4), 12);
    assert_eq!(_stride(10, 1), 10);
    assert_eq!(_stride(10, 0), 10);
    assert_eq!(_stride(1, 256), 256);
    assert_eq!(_stride(0, 1), 0);
}

#[test]
fn fresh_chunk_state() {
    let c = Chunk::new(7, 3, host_type(), Linearity::Linear, 0);
    assert!(c.mapped);
    assert_eq!(c.start_of_perm, CHUNK_SIZE);
    assert!(c.blocks.is_empty() && c.perm_blocks.is_empty() && c.freelist.is_empty());
    let d = Chunk::new(8, 0, device_type(), Linearity::Nonlinear, 2);
    assert!(!d.mapped);
    assert_eq!(d.chunk_number, 2);
}

#[test]
fn temporary_blocks_are_placed_first_fit_and_aligned() {
    let mut c = Chunk::new(7, 3, coherent_type(), Linearity::Linear, 0);
    let a = c.allocate(100, 256, 1, Lifetime::Temporary, "a").unwrap();
    assert_eq!(a.offset_in_chunk, 0);
    assert_eq!(a.size, 100);
    assert_eq!(a.memory, 7);
    assert!(a.host_visible && a.is_coherent);
    let b = c.allocate(100, 256, 1, Lifetime::Temporary, "b").unwrap();
    assert_eq!(b.offset_in_chunk, 256);
    let d = c.allocate(10, 8, 16, Lifetime::Temporary, "d").unwrap();
    // the gap after the first block is used
    assert_eq!(d.offset_in_chunk, 104);
    assert_eq!(d.element_alignment, 16);
    let offsets: Vec<u64> = c.blocks.iter().map(|b| b.offset).collect();
    assert_eq!(offsets, vec![0, 104, 256]);
    assert_eq!(c.blocks[1].reason, "d");
}

#[test]
fn hole_must_be_strictly_larger_than_block() {
    let mut c = Chunk::new(1, 0, host_type(), Linearity::Linear, 0);
    c.allocate(100, 1, 1, Lifetime::Temporary, "a").unwrap();
    c.allocate(100, 1, 1, Lifetime::Temporary, "b").unwrap();
    c.release(0);
    // a hole of exactly 100 bytes at 0 does not take 100 bytes
    let x = c.allocate(100, 1, 1, Lifetime::Temporary, "x").unwrap();
    assert_eq!(x.offset_in_chunk, 200);
    // but it takes 99
    let y = c.allocate(99, 1, 1, Lifetime::Temporary, "y").unwrap();
    assert_eq!(y.offset_in_chunk, 0);
}

#[test]
fn permanent_blocks_come_from_the_top() {
    let mut c = Chunk::new(1, 0, host_type(), Linearity::Linear, 0);
    let p = c.allocate(1000, 256, 1, Lifetime::Permanent, "perm").unwrap();
    assert_eq!(p.offset_in_chunk, 33553408);
    assert_eq!(c.start_of_perm, 33553408);
    let q = c.allocate(10, 4, 1, Lifetime::Permanent, "perm2").unwrap();
    assert_eq!(q.offset_in_chunk, 33553396);
    assert_eq!(c.perm_blocks.len(), 2);
    assert_eq!(c.perm_blocks[1].offset, 33553396);
}

#[test]
fn permanent_block_refused_when_temporary_blocks_are_in_the_way() {
    let mut c = Chunk::new(1, 0, host_type(), Linearity::Linear, 0);
    c.allocate(CHUNK_SIZE - 100, 1, 1, Lifetime::Temporary, "big").unwrap();
    assert!(c.allocate(200, 1, 1, Lifetime::Permanent, "p").is_none());
    assert_eq!(c.start_of_perm, CHUNK_SIZE);
    assert!(c.allocate(100, 1, 1, Lifetime::Permanent, "q").is_some());
    // a permanent block larger than what is left is refused
    assert!(c.allocate(CHUNK_SIZE, 1, 1, Lifetime::Permanent, "r").is_none());
}

#[test]
fn temporary_block_refused_when_it_does_not_fit_below_permanent_ones() {
    let mut c = Chunk::new(1, 0, host_type(), Linearity::Linear, 0);
    c.allocate(CHUNK_SIZE / 2, 1, 1, Lifetime::Permanent, "p").unwrap();
    assert!(c.allocate(CHUNK_SIZE / 2, 1, 1, Lifetime::Temporary, "t").is_none());
    assert!(c.allocate(CHUNK_SIZE / 2 - 1, 1, 1, Lifetime::Temporary, "t").is_some());
}

#[test]
fn fresh_chunk_takes_permanent_full_chunk_but_not_temporary() {
    let mut c = Chunk::new(1, 0, host_type(), Linearity::Linear, 0);
    assert!(c.allocate(CHUNK_SIZE, 256, 1, Lifetime::Temporary, "t").is_none());
    assert_eq!(c.allocate(CHUNK_SIZE, 256, 1, Lifetime::Permanent, "p").unwrap().offset_in_chunk, 0);
    let mut d = Chunk::new(1, 0, host_type(), Linearity::Linear, 0);
    assert_eq!(d.allocate(CHUNK_SIZE - 1, 256, 1, Lifetime::Temporary, "t").unwrap().offset_in_chunk, 0);
}

#[test]
fn released_blocks_are_swept_at_next_temporary_allocation() {
    let mut c = Chunk::new(1, 0, host_type(), Linearity::Linear, 0);
    c.allocate(100, 1, 1, Lifetime::Temporary, "a").unwrap();
    c.allocate(100, 1, 1, Lifetime::Temporary, "b").unwrap();
    c.allocate(100, 1, 1, Lifetime::Temporary, "c").unwrap();
    c.release(100);
    assert_eq!(c.freelist, vec![100]);
    assert_eq!(c.blocks.len(), 3);
    // a permanent allocation does not sweep
    c.allocate(10, 1, 1, Lifetime::Permanent, "p").unwrap();
    assert_eq!(c.freelist, vec![100]);
    let x = c.allocate(50, 1, 1, Lifetime::Temporary, "x").unwrap();
    assert_eq!(x.offset_in_chunk, 100);
    assert!(c.freelist.is_empty());
    let offsets: Vec<u64> = c.blocks.iter().map(|b| b.offset).collect();
    assert_eq!(offsets, vec![0, 100, 200]);
    assert_eq!(c.blocks[1].reason, "x");
}

#[test]
fn chunk_blocks_never_overlap() {
    let mut c = Chunk::new(1, 0, host_type(), Linearity::Linear, 0);
    let sizes = [300u64, 17, 4096, 1, 999, 65536, 12, 7777];
    let aligns = [256u64, 1, 4096, 8, 64, 512, 2, 16];
    let mut handed: Vec<(u64, u64, Lifetime)> = Vec::new();
    for round in 0..4 {
        for i in 0..sizes.len() {
            let lifetime = if (i + round) % 3 == 0 { Lifetime::Permanent } else { Lifetime::Temporary };
            let b = c.allocate(sizes[i], aligns[i], 1, lifetime, "x").unwrap();
            assert_eq!(b.offset_in_chunk % aligns[i], 0);
            assert!(b.offset_in_chunk + b.size <= CHUNK_SIZE);
            handed.push((b.offset_in_chunk, b.size, lifetime));
        }
        // free every other temporary block of this round
        let n = handed.len();
        for k in (n - sizes.len())..n {
            if k % 2 == 0 && handed[k].2 == Lifetime::Temporary {
                c.release(handed[k].0);
            }
        }
    }
    c.allocate(1, 1, 1, Lifetime::Temporary, "sweep").unwrap();
    let mut all: Vec<(u64, u64)> = c.blocks.iter().map(|b| (b.offset, b.size)).collect();
    all.extend(c.perm_blocks.iter().map(|b| (b.offset, b.size)));
    for i in 0..all.len() {
        for j in 0..all.len() {
            if i != j {
                assert!(!overlaps(all[i], all[j]), "{:?} {:?}", all[i], all[j]);
            }
        }
    }
    for w in c.blocks.windows(2) {
        assert!(w[0].offset + w[0].size <= w[1].offset);
    }
}

#[test]
fn flush_range_only_for_dirty_mapped_noncoherent_chunks() {
    let mut c = Chunk::new(5, 0, host_type(), Linearity::Linear, 0);
    assert_eq!(c.flush_range(), None);
    c.mark_dirty();
    assert_eq!(c.flush_range(), Some((0, CHUNK_SIZE)));
    // the chunk stays dirty until the flush is reported done
    assert!(c.dirty);
    assert_eq!(c.flush_range(), Some((0, CHUNK_SIZE)));
    c.mark_flushed();
    assert!(!c.dirty);
    assert_eq!(c.flush_range(), None);
    let mut k = Chunk::new(5, 0, coherent_type(), Linearity::Linear, 0);
    k.mark_dirty();
    assert_eq!(k.flush_range(), None);
    assert!(k.dirty);
    let mut d = Chunk::new(5, 0, device_type(), Linearity::Linear, 0);
    d.mark_dirty();
    assert_eq!(d.flush_range(), None);
}

fn sample_memory() -> Memory {
    Memory::new(vec![device_type(), host_type(), coherent_type()], limits())
}

#[test]
fn memory_type_prefers_exact_flags() {
    let m = sample_memory();
    assert_eq!(m.find_memory_type_index(0b111, MEMORY_PROPERTY_HOST_VISIBLE), Some(1));
    assert_eq!(m.find_memory_type_index(0b101, MEMORY_PROPERTY_HOST_VISIBLE), Some(2));
    assert_eq!(m.find_memory_type_index(0b001, MEMORY_PROPERTY_HOST_VISIBLE), None);
    assert_eq!(m.find_memory_type_index(0b111, MEMORY_PROPERTY_DEVICE_LOCAL), Some(0));
    assert_eq!(m.find_memory_type_index(0b110, MEMORY_PROPERTY_HOST_COHERENT), Some(2));
    assert_eq!(m.find_memory_type_index_f(0b111, MEMORY_PROPERTY_HOST_COHERENT, TypeMatch::Exact), None);
    assert_eq!(m.find_memory_type_index_f(0b111, 0, TypeMatch::Includes), Some(0));
}

#[test]
fn element_alignment_takes_largest_applicable_limit() {
    let m = sample_memory();
    assert_eq!(m.element_alignment(None), 1);
    assert_eq!(m.element_alignment(Some(BUFFER_USAGE_VERTEX_BUFFER)), 1);
    assert_eq!(m.element_alignment(Some(BUFFER_USAGE_UNIFORM_BUFFER)), 256);
    assert_eq!(m.element_alignment(Some(BUFFER_USAGE_STORAGE_TEXEL_BUFFER)), 64);
    assert_eq!(m.stride(20, Some(BUFFER_USAGE_STORAGE_TEXEL_BUFFER)), 64);
    assert_eq!(m.stride(20, None), 20);
}

#[test]
fn allocation_asks_for_chunks_then_uses_them() {
    let mut m = sample_memory();
    let req = MemoryRequirements { size: 1000, alignment: 256, memory_type_bits: 0b111 };
    let step = m
        .allocate_device_memory(&req, MEMORY_PROPERTY_HOST_VISIBLE, Some(BUFFER_USAGE_UNIFORM_BUFFER), Linearity::Linear,
            Lifetime::Temporary, "ubo")
        .unwrap();
    assert_eq!(step, AllocStep::NeedFirstChunk(1));
    m.add_chunk(Linearity::Linear, 1, 42);
    let step = m
        .allocate_device_memory(&req, MEMORY_PROPERTY_HOST_VISIBLE, Some(BUFFER_USAGE_UNIFORM_BUFFER), Linearity::Linear,
            Lifetime::Temporary, "ubo")
        .unwrap();
    let block = match step {
        AllocStep::Allocated(b) => b,
        other => panic!("unexpected {:?}", other),
    };
    assert_eq!(block.memory, 42);
    assert_eq!(block.offset_in_chunk, 0);
    assert_eq!(block.element_alignment, 256);
    assert_eq!(block.memory_type_index, 1);
    assert_eq!(block.chunk_number, 0);
    assert_eq!(m.chunks_of(0, 1).len(), 1);
    assert_eq!(m.chunks_of(0, 1)[0].blocks.len(), 1);
    // nonlinear list of the same type is separate
    assert_eq!(m.chunks_of(1, 1).len(), 0);
}

#[test]
fn allocation_without_fitting_type_fails() {
    let mut m = sample_memory();
    let req = MemoryRequirements { size: 1000, alignment: 256, memory_type_bits: 0b001 };
    let r = m.allocate_device_memory(&req, MEMORY_PROPERTY_HOST_VISIBLE, None, Linearity::Linear, Lifetime::Temporary, "x");
    assert_eq!(r, Err(Error::OutOfGraphicsMemory));
}

#[test]
fn allocation_in_new_chunk_when_existing_ones_are_full() {
    let mut m = sample_memory();
    m.add_chunk(Linearity::Nonlinear, 0, 1);
    let big = MemoryRequirements { size: CHUNK_SIZE - 10, alignment: 1, memory_type_bits: 0b1 };
    let first = m.allocate_device_memory(&big, MEMORY_PROPERTY_DEVICE_LOCAL, None, Linearity::Nonlinear,
        Lifetime::Temporary, "big").unwrap();
    assert!(matches!(first, AllocStep::Allocated(_)));
    let step = m.allocate_device_memory(&big, MEMORY_PROPERTY_DEVICE_LOCAL, None, Linearity::Nonlinear,
        Lifetime::Temporary, "big2").unwrap();
    assert_eq!(step, AllocStep::NeedChunk(0));
    let b = m.allocate_in_new_chunk(Linearity::Nonlinear, 0, 2, &big, None, Lifetime::Temporary, "big2").unwrap();
    assert_eq!(b.chunk_number, 1);
    assert_eq!(b.memory, 2);
    assert_eq!(b.linearity, Linearity::Nonlinear);
    assert_eq!(m.chunks_of(1, 0).len(), 2);
    // a full-chunk temporary block never fits, even in a new chunk
    let full = MemoryRequirements { size: CHUNK_SIZE, alignment: 1, memory_type_bits: 0b1 };
    let r = m.allocate_in_new_chunk(Linearity::Nonlinear, 0, 3, &full, None, Lifetime::Temporary, "full");
    assert_eq!(r, Err(Error::OutOfGraphicsMemory));
    assert_eq!(m.chunks_of(1, 0).len(), 3);
}

#[test]
fn release_returns_space_to_its_chunk() {
    let mut m = sample_memory();
    m.add_chunk(Linearity::Linear, 1, 9);
    let req = MemoryRequirements { size: 100, alignment: 1, memory_type_bits: 0b10 };
    let a = match m.allocate_device_memory(&req, MEMORY_PROPERTY_HOST_VISIBLE, None, Linearity::Linear,
        Lifetime::Temporary, "a").unwrap() {
        AllocStep::Allocated(b) => b,
        _ => panic!(),
    };
    let b = match m.allocate_device_memory(&req, MEMORY_PROPERTY_HOST_VISIBLE, None, Linearity::Linear,
        Lifetime::Temporary, "b").unwrap() {
        AllocStep::Allocated(b) => b,
        _ => panic!(),
    };
    assert_eq!(b.offset_in_chunk, 100);
    assert!(m.holds(&a));
    m.release(a);
    let small = MemoryRequirements { size: 50, alignment: 1, memory_type_bits: 0b10 };
    let c = match m.allocate_device_memory(&small, MEMORY_PROPERTY_HOST_VISIBLE, None, Linearity::Linear,
        Lifetime::Temporary, "c").unwrap() {
        AllocStep::Allocated(b) => b,
        _ => panic!(),
    };
    assert_eq!(c.offset_in_chunk, 0);
}

#[test]
fn flush_pass_reports_dirty_noncoherent_chunks_once() {
    let mut m = sample_memory();
    m.add_chunk(Linearity::Linear, 1, 11);
    m.add_chunk(Linearity::Linear, 2, 12);
    m.add_chunk(Linearity::Nonlinear, 1, 13);
    let req = MemoryRequirements { size: 64, alignment: 1, memory_type_bits: 0b110 };
    let mut blocks: Vec<Block> = Vec::new();
    for (flags, lin) in [(MEMORY_PROPERTY_HOST_VISIBLE, Linearity::Linear),
        (MEMORY_PROPERTY_HOST_VISIBLE | MEMORY_PROPERTY_HOST_COHERENT, Linearity::Linear),
        (MEMORY_PROPERTY_HOST_VISIBLE, Linearity::Nonlinear)] {
        match m.allocate_device_memory(&req, flags, None, lin, Lifetime::Temporary, "w").unwrap() {
            AllocStep::Allocated(b) => blocks.push(b),
            _ => panic!(),
        }
    }
    for b in &blocks {
        assert_eq!(m.write_one(b, 4, None), Ok(0));
    }
    let ranges = m.flushes();
    let memories: Vec<(u64, u64, u64)> = ranges.iter().map(|r| (r.memory, r.offset, r.size)).collect();
    assert_eq!(memories, vec![(11, 0, CHUNK_SIZE), (13, 0, CHUNK_SIZE)]);
    assert_eq!(ranges[1].linearity, Linearity::Nonlinear);
    assert_eq!(ranges[1].memory_type_index, 1);
    assert_eq!(ranges[1].chunk_number, 0);
    // nothing is clean until reported: a failed flush leaves the chunk dirty
    assert_eq!(m.flushes().len(), 2);
    assert!(m.mark_flushed(&ranges[0]));
    let rest: Vec<u64> = m.flushes().iter().map(|r| r.memory).collect();
    assert_eq!(rest, vec![13]);
    assert!(m.mark_flushed(&ranges[1]));
    assert!(m.flushes().is_empty());
    let mut bogus = ranges[1];
    bogus.chunk_number = 7;
    assert!(!m.mark_flushed(&bogus));
}

#[test]
fn solo_allocations_are_recorded() {
    let mut m = sample_memory();
    let req = MemoryRequirements { size: 1 << 20, alignment: 4096, memory_type_bits: 0b111 };
    let t = m.solo_memory_type(&req, MEMORY_PROPERTY_DEVICE_LOCAL).unwrap();
    assert_eq!(t, 0);
    m.record_solo(t, req.size, "render target");
    assert_eq!(m.solos().len(), 1);
    assert_eq!(m.solos()[0].reason, "render target");
    let none = MemoryRequirements { size: 1, alignment: 1, memory_type_bits: 0 };
    assert_eq!(m.solo_memory_type(&none, MEMORY_PROPERTY_DEVICE_LOCAL), Err(Error::OutOfGraphicsMemory));
}

#[test]
fn block_write_positions() {
    let mut c = Chunk::new(1, 0, host_type(), Linearity::Linear, 0);
    let b = c.allocate(1024, 256, 64, Lifetime::Temporary, "ubo").unwrap();
    assert_eq!(b.stride_for(20), 64);
    assert_eq!(b.element_byte_offset(20, 3), 192);
    assert_eq!(b.write_one(20, Some(2)), Ok(128));
    assert_eq!(b.write_one(20, None), Ok(0));
    assert_eq!(b.write_array(20, 4, None), Ok((0, 64)));
    let mut d = Chunk::new(1, 0, device_type(), Linearity::Linear, 0);
    let db = d.allocate(1024, 256, 1, Lifetime::Temporary, "x").unwrap();
    assert_eq!(db.write_one(4, None), Err(Error::MemoryNotHostWritable));
    assert_eq!(db.write_array(4, 2, Some(1)), Err(Error::MemoryNotHostWritable));
    let tight = c.allocate(64, 4, 1, Lifetime::Temporary, "tight").unwrap();
    assert_eq!(tight.write_array(4, 4, Some(2)), Ok((8, 4)));
    // padded arrays can start at any element position
    assert_eq!(b.write_array(20, 3, Some(2)), Ok((128, 64)));
}

#[test]
fn stdio_write_stops_at_block_end() {
    let mut c = Chunk::new(1, 0, host_type(), Linearity::Linear, 0);
    let mut b = c.allocate(10, 1, 1, Lifetime::Temporary, "s").unwrap();
    assert_eq!(b.stdio_write(6), Ok((0, 6)));
    assert_eq!(b.stdio_write(6), Ok((6, 4)));
    assert_eq!(b.stdio_write(6), Ok((10, 0)));
    assert_eq!(b.stdio_write_offset, 10);
    let mut d = Chunk::new(1, 0, device_type(), Linearity::Linear, 0);
    let mut db = d.allocate(10, 1, 1, Lifetime::Temporary, "s").unwrap();
    assert_eq!(db.stdio_write(3), Err(Error::MemoryNotHostWritable));
    assert_eq!(db.stdio_write_offset, 0);
}

#[test]
fn linearity_labels() {
    assert_eq!(Linearity::Linear.label(), "Linear");
    assert_eq!(Linearity::Nonlinear.label(), "Nonlinear");
    assert_eq!(Linearity::Nonlinear.index(), 1);
}

#[test]
fn releasing_a_block_undoes_its_allocation() {
    let mut c = Chunk::new(1, 0, host_type(), Linearity::Linear, 0);
    c.allocate(100, 1, 1, Lifetime::Temporary, "a").unwrap();
    c.allocate(300, 1, 1, Lifetime::Temporary, "b").unwrap();
    c.release(0);
    // the next allocation sweeps "a"; the live blocks are then just "b"
    let x = c.allocate(64, 64, 1, Lifetime::Temporary, "x").unwrap();
    assert_eq!(x.offset_in_chunk, 0);
    c.release(x.offset_in_chunk);
    // a further sweep leaves exactly the blocks that were live before "x"
    c.allocate(1, 1, 1, Lifetime::Permanent, "p").unwrap();
    let y = c.allocate(CHUNK_SIZE, 1, 1, Lifetime::Temporary, "too big");
    assert!(y.is_none());
    let offsets: Vec<u64> = c.blocks.iter().map(|b| b.offset).collect();
    assert_eq!(offsets, vec![100]);
    assert_eq!(c.blocks[0].reason, "b");
}

#[test]
fn host_writes_mark_the_chunk_dirty() {
    let mut m = sample_memory();
    m.add_chunk(Linearity::Linear, 1, 21);
    m.add_chunk(Linearity::Linear, 0, 22);
    let req = MemoryRequirements { size: 256, alignment: 1, memory_type_bits: 0b10 };
    let mut b = match m.allocate_device_memory(&req, MEMORY_PROPERTY_HOST_VISIBLE, None, Linearity::Linear,
        Lifetime::Temporary, "host").unwrap() {
        AllocStep::Allocated(b) => b,
        _ => panic!(),
    };
    assert!(m.flushes().is_empty());
    assert_eq!(m.stdio_write(&mut b, 300), Ok((0, 256)));
    assert_eq!(b.stdio_write_offset, 256);
    assert_eq!(m.flushes().len(), 1);
    let dreq = MemoryRequirements { size: 256, alignment: 1, memory_type_bits: 0b1 };
    let mut d = match m.allocate_device_memory(&dreq, MEMORY_PROPERTY_DEVICE_LOCAL, None, Linearity::Linear,
        Lifetime::Temporary, "dev").unwrap() {
        AllocStep::Allocated(b) => b,
        _ => panic!(),
    };
    assert_eq!(m.write_array(&d, 4, 2, Some(3)), Err(Error::MemoryNotHostWritable));
    assert_eq!(m.stdio_write(&mut d, 8), Err(Error::MemoryNotHostWritable));
    assert_eq!(d.stdio_write_offset, 0);
    assert_eq!(m.write_array(&b, 8, 4, Some(1)), Ok((8, 8)));
}

#[test]
fn oversized_requests_are_refused_by_a_chunk() {
    let mut c = Chunk::new(1, 0, host_type(), Linearity::Linear, 0);
    c.allocate(100, 1, 1, Lifetime::Temporary, "a").unwrap();
    c.release(0);
    assert!(c.allocate(CHUNK_SIZE + 1, 1, 1, Lifetime::Permanent, "p").is_none());
    // a failed permanent allocation leaves the free list alone
    assert_eq!(c.freelist, vec![0]);
    assert!(c.allocate(u64::MAX, 1, 1, Lifetime::Temporary, "t").is_none());
    // a failed temporary allocation still sweeps
    assert!(c.freelist.is_empty());
    assert!(c.blocks.is_empty());
}

#[test]
fn first_fit_takes_the_lowest_aligned_hole() {
    let mut c = Chunk::new(1, 0, host_type(), Linearity::Linear, 0);
    c.allocate(10, 1, 1, Lifetime::Temporary, "a").unwrap();
    c.allocate(100, 1, 1, Lifetime::Temporary, "b").unwrap();
    c.allocate(300, 1, 1, Lifetime::Temporary, "c").unwrap();
    c.release(10);
    // the hole [10, 110) holds an aligned 64-byte block at 64 (64 + 40 < 110)
    let x = c.allocate(40, 64, 1, Lifetime::Temporary, "x").unwrap();
    assert_eq!(x.offset_in_chunk, 64);
    // too big for that hole once aligned: goes after "c"
    let y = c.allocate(60, 64, 1, Lifetime::Temporary, "y").unwrap();
    assert_eq!(y.offset_in_chunk, 448);
}
