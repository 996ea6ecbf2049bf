use vstd::prelude::*;

verus! {

/// The failures that the storage engine reports to its callers.
#[derive(Debug, PartialEq, Eq)]
pub enum Error {
    /// A page could not be read or written; carries a description.
    IO(String),
    /// An argument names nothing that exists; carries a description.
    InvalidInput(String),
    /// A tuple does not fit into the page.
    OutOfBounds,
    /// A page id or file offset left the range of 64 bits.
    ArithmeticOverflow,
    /// Every frame of the buffer pool is pinned.
    BufferPoolFull,
}

} // verus!
