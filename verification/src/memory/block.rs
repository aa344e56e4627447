//! Where host writes into a block go.
//!
//! The writes themselves happen through the mapping of the block's chunk, outside
//! this crate; these functions say where each element goes, refuse blocks that the
//! host cannot write, and keep the position of byte-stream writes. The write steps
//! of `Memory` (`write_one`, `write_array`, `stdio_write`) use them and also mark the
//! block's chunk as written.
use vstd::prelude::*;

use crate::error::Error;
use super::manager::{_stride, stride_spec};
use super::types::Block;

verus! {

/// Distance between elements of `elem_size` bytes in a block.
pub open spec fn block_stride(b: Block, elem_size: usize) -> int {
    stride_spec(elem_size as int, (b.element_alignment as usize) as int)
}

/// The element stride of a block can be computed for elements of `elem_size` bytes.
pub open spec fn stride_ok(b: Block, elem_size: usize) -> bool {
    &&& ((b.element_alignment as usize) <= 1 || elem_size >= 1)
    &&& block_stride(b, elem_size) <= usize::MAX
}

impl Block {
    /// Distance between elements of `elem_size` bytes in this block: the size rounded
    /// up to the block's element alignment.
    pub fn stride_for(&self, elem_size: usize) -> (r: usize)
        requires
            stride_ok(*self, elem_size),
        ensures
            r == block_stride(*self, elem_size),
    {
        _stride(elem_size, self.element_alignment as usize)
    }

    /// Byte offset of element `offset` (counted in elements plus their padding).
    pub fn element_byte_offset(&self, elem_size: usize, offset: usize) -> (r: usize)
        requires
            stride_ok(*self, elem_size),
            offset * block_stride(*self, elem_size) <= usize::MAX,
        ensures
            r == offset * block_stride(*self, elem_size),
    {
        let stride = self.stride_for(elem_size);
        offset * stride
    }

    /// Where one element goes: the byte offset of element `offset` (0 when not
    /// given). Fails with `MemoryNotHostWritable` when the block is not host visible.
    /// The element must lie inside the block.
    pub fn write_one(&self, elem_size: usize, offset: Option<usize>) -> (r: Result<usize, Error>)
        requires
            stride_ok(*self, elem_size),
            self.host_visible ==> block_stride(*self, elem_size) * (offset.unwrap_or(0) + 1) <= (self.size as usize),
        ensures
            !self.host_visible ==> r == Err::<usize, Error>(Error::MemoryNotHostWritable),
            self.host_visible ==> r == Ok::<usize, Error>((offset.unwrap_or(0) * block_stride(*self, elem_size)) as usize),
    {
        if !self.host_visible {
            return Err(Error::MemoryNotHostWritable);
        }
        let stride = self.stride_for(elem_size);
        let offset = match offset {
            Some(o) => o,
            None => 0,
        };
        proof {
            assert(offset * stride <= stride * (offset + 1)) by (nonlinear_arith)
                requires stride >= 0, offset >= 0;
        }
        Ok(offset * stride)
    }

    /// Where an array of `count` elements goes: element `k` of the array goes to
    /// byte `start + k * stride`, and the result is `(start, stride)`, with `start` the
    /// byte offset of element `offset` (0 when not given). Fails with
    /// `MemoryNotHostWritable` when the block is not host visible. The elements must
    /// lie inside the block. An array whose elements are padded may deliberately start
    /// at any element position, as documented for element offsets; copying such an
    /// array element by element from a later position used to index past its end.
    pub fn write_array(&self, elem_size: usize, count: usize, offset: Option<usize>) -> (r: Result<(usize, usize), Error>)
        requires
            stride_ok(*self, elem_size),
            self.host_visible ==> block_stride(*self, elem_size) * (offset.unwrap_or(0) + count) <= (self.size as usize),
        ensures
            !self.host_visible ==> r == Err::<(usize, usize), Error>(Error::MemoryNotHostWritable),
            self.host_visible ==> r == Ok::<(usize, usize), Error>((
                (offset.unwrap_or(0) * block_stride(*self, elem_size)) as usize,
                block_stride(*self, elem_size) as usize,
            )),
    {
        if !self.host_visible {
            return Err(Error::MemoryNotHostWritable);
        }
        let stride = self.stride_for(elem_size);
        let offset = match offset {
            Some(o) => o,
            None => 0,
        };
        proof {
            assert(offset * stride <= stride * (offset + count)) by (nonlinear_arith)
                requires stride >= 0, offset >= 0, count >= 0;
        }
        Ok((offset * stride, stride))
    }

    /// A byte-stream write of `buf_len` bytes: writes what fits between the stream
    /// position and the end of the block, and advances the position. Gives the
    /// position written at and the number of bytes written; fails with
    /// `MemoryNotHostWritable` (leaving the position) when the block is not host visible.
    pub fn stdio_write(&mut self, buf_len: usize) -> (r: Result<(u64, u64), Error>)
        requires
            old(self).stdio_write_offset <= old(self).size,
        ensures
            ({
                let room = old(self).size - old(self).stdio_write_offset;
                let n = if buf_len as int <= room { buf_len as int } else { room };
                &&& !old(self).host_visible ==> r == Err::<(u64, u64), Error>(Error::MemoryNotHostWritable)
                    && *final(self) == *old(self)
                &&& old(self).host_visible ==> r == Ok::<(u64, u64), Error>((old(self).stdio_write_offset, n as u64))
                    && *final(self) == (Block { stdio_write_offset: (old(self).stdio_write_offset + n) as u64, ..*old(self) })
            }),
    {
        let room = self.size - self.stdio_write_offset;
        let len = buf_len as u64;
        let size = if len <= room { len } else { room };
        if !self.host_visible {
            return Err(Error::MemoryNotHostWritable);
        }
        let at = self.stdio_write_offset;
        self.stdio_write_offset = self.stdio_write_offset + size;
        Ok((at, size))
    }
}

} // verus!
