//! The allocator that backs large kernel buffers with `vmalloc`: the decision
//! of when to ask for memory and how to read what came back. The `vmalloc`
//! call itself is handed in by the caller.
use vstd::prelude::*;

verus! {

/// An allocator that takes its memory from `vmalloc`.
pub struct VmallocAllocator;

/// The allocator could not provide the memory asked for.
#[derive(Clone, Copy, Debug, PartialEq, Eq, Structural)]
pub struct AllocError;

/// A block of memory: its start address and its length in bytes.
#[derive(Clone, Copy, Debug, PartialEq, Eq, Structural)]
pub struct Block {
    pub addr: usize,
    pub len: usize,
}

impl VmallocAllocator {
    /// Allocates `size` bytes for a layout of alignment `align`.
    ///
    /// A request for no bytes is answered without asking `vmalloc`, by an
    /// empty block at the layout's dangling address, which is its alignment.
    /// Any other request asks `vmalloc` for exactly `size` bytes once: a null
    /// address back is an error, any other address is the block.
    pub fn allocate<F: Fn(u64) -> usize>(&self, size: usize, align: usize, vmalloc: F) -> (r: Result<
        Block,
        AllocError,
    >)
        requires
            size > 0 ==> call_requires(vmalloc, (size as u64,)),
        ensures
            size == 0 ==> r == (Ok::<Block, AllocError>(Block { addr: align, len: 0 })),
            size > 0 ==> match r {
                Ok(b) => b.len == size && b.addr != 0 && call_ensures(vmalloc, (size as u64,), b.addr),
                Err(_) => call_ensures(vmalloc, (size as u64,), 0usize),
            },
    {
        if size == 0 {
            Ok(Block { addr: align, len: 0 })
        } else {
            let raw = vmalloc(size as u64);
            if raw == 0 {
                Err(AllocError)
            } else {
                Ok(Block { addr: raw, len: size })
            }
        }
    }
}

} // verus!
