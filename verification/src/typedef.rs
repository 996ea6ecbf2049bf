use vstd::prelude::*;

verus! {

/// Identifier of a page on disk.
pub type PageId = u64;

/// Index of a frame in the buffer pool.
pub type FrameId = usize;

/// Size of a page, on disk and in memory, in bytes.
pub const PAGE_SIZE: usize = 4096;

/// The page id that names no page.
pub const INVALID_PAGE_ID: PageId = 0xffff_ffff_ffff_ffff;

} // verus!
