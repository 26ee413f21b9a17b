//! A region of a file: a window, starting at an offset and of a given size,
//! that reads stay within.
use vstd::prelude::*;

verus! {

/// A window of `size` bytes starting at byte `offset` of a file, with the
/// position of the next sequential read.
#[derive(Debug, Clone, Copy, PartialEq, Eq, Structural)]
pub struct FileRegion {
    pub offset: u64,
    pub size: u64,
    pub pos: u64,
}

/// A read to make on the underlying file: `len` bytes at `position`.
#[derive(Debug, Clone, Copy, PartialEq, Eq, Structural)]
pub struct ReadRequest {
    pub position: u64,
    pub len: usize,
}

/// A positioned read that starts past the end of the region.
#[derive(Debug, Clone, Copy, PartialEq, Eq, Structural)]
pub enum RegionError {
    /// The message the read fails with is "position out of bounds".
    OutOfBounds,
}

pub open spec fn spec_min(a: int, b: int) -> int {
    if a < b {
        a
    } else {
        b
    }
}

impl FileRegion {
    pub fn new(offset: u64, size: u64) -> (r: Self)
        ensures
            r == (FileRegion { offset, size, pos: 0 }),
    {
        FileRegion { offset, size, pos: 0 }
    }

    /// The read that a sequential read into a buffer of `buf_len` bytes makes
    /// on the file, or `None` when the region is exhausted (the read then
    /// gives 0 bytes). The read never leaves the region.
    pub fn plan_read(&self, buf_len: usize) -> (r: Option<ReadRequest>)
        requires
            self.pos < self.size ==> self.pos + self.offset <= u64::MAX,
        ensures
            r is None <==> self.pos >= self.size,
            r matches Some(q) ==> {
                &&& q.position == self.pos + self.offset
                &&& q.len == spec_min(buf_len as int, self.size - self.pos)
                &&& self.offset <= q.position
                &&& q.position + q.len <= self.offset + self.size
            },
    {
        if self.pos >= self.size {
            return None;
        }
        let left = self.size - self.pos;
        let len: usize = if (buf_len as u64) < left {
            buf_len
        } else {
            left as usize
        };
        Some(ReadRequest { position: self.pos + self.offset, len })
    }

    /// Moves the position past a sequential read of `len` bytes.
    pub fn advance(&mut self, len: usize)
        requires
            old(self).pos + len <= u64::MAX,
        ensures
            final(self).pos == old(self).pos + len,
            final(self).offset == old(self).offset,
            final(self).size == old(self).size,
    {
        self.pos = self.pos + len as u64;
    }

    /// The read that a positioned read of `buf_len` bytes at `pos` within the
    /// region makes on the file; refused when `pos` is past the region's end.
    pub fn plan_read_at(&self, pos: u64, buf_len: usize) -> (r: Result<ReadRequest, RegionError>)
        requires
            pos < self.size ==> pos + self.offset <= u64::MAX,
        ensures
            r is Err <==> pos >= self.size,
            r matches Ok(q) ==> {
                &&& q.position == pos + self.offset
                &&& q.len == spec_min(buf_len as int, self.size - pos)
                &&& q.position + q.len <= self.offset + self.size
            },
    {
        if pos >= self.size {
            return Err(RegionError::OutOfBounds);
        }
        let left = self.size - pos;
        let len: usize = if (buf_len as u64) < left {
            buf_len
        } else {
            left as usize
        };
        Ok(ReadRequest { position: pos + self.offset, len })
    }
}

} // verus!
