//! Frame memory pool — hands out pre-sized frame buffers.
//!
//! Frames are shared once filled, so buffers are not returned automatically;
//! the pool acts as an allocator of empty buffers of the configured size.
use vstd::prelude::*;

verus! {

/// Allocator of empty frame buffers with a configured capacity hint.
pub struct FramePool {
    buffer_size: usize,
}

impl FramePool {
    /// The configured buffer size.
    pub closed spec fn spec_buffer_size(&self) -> usize {
        self.buffer_size
    }

    /// A pool handing out buffers of `buffer_size` bytes of capacity.
    pub fn new(buffer_size: usize) -> (r: Self)
        ensures
            r.spec_buffer_size() == buffer_size,
    {
        FramePool { buffer_size }
    }

    /// An empty buffer with room for `buffer_size` bytes.
    pub fn acquire(&self) -> (r: Vec<u8>)
        ensures
            r@.len() == 0,
    {
        Vec::with_capacity(self.buffer_size)
    }

    /// Return a buffer to the pool; it is dropped.
    pub fn release(&self, buf: Vec<u8>) {
    }

    /// Resizing is not supported; the pool is unchanged.
    pub fn resize(&self, new_size: usize) {
    }
}

} // verus!
