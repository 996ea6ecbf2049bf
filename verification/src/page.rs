use crate::frame::{overwrite, zeroes};
use crate::typedef::{PageId, INVALID_PAGE_ID, PAGE_SIZE};
use vstd::prelude::*;
use vstd::slice::slice_subrange;

verus! {

/// A page in memory with its bookkeeping in the open: which page it is,
/// whether it was changed, and how often it is pinned.
pub struct Page {
    pub page_id: PageId,
    pub is_dirty: bool,
    pub pin_cnt: u16,
    pub data: [u8; PAGE_SIZE],
}

impl View for Page {
    type V = Seq<u8>;

    open spec fn view(&self) -> Seq<u8> {
        self.data@
    }
}

impl Page {
    /// No page, not pinned, clean, all bytes zero.
    pub fn new() -> (page: Page)
        ensures
            page.page_id == INVALID_PAGE_ID,
            !page.is_dirty,
            page.pin_cnt == 0,
            page@ == zeroes(PAGE_SIZE as nat),
    {
        let page = Page {
            page_id: INVALID_PAGE_ID,
            is_dirty: false,
            pin_cnt: 0,
            data: [0u8; PAGE_SIZE],
        };
        assert(page@ =~= zeroes(PAGE_SIZE as nat));
        page
    }

    /// The `size` bytes from `offset` on.
    pub fn read(&self, offset: usize, size: usize) -> (bytes: &[u8])
        requires
            offset + size <= PAGE_SIZE,
        ensures
            bytes@ == self@.subrange(offset as int, offset + size),
    {
        slice_subrange(self.data.as_slice(), offset, offset + size)
    }

    /// Copies `data` into the page, starting at `offset`.
    pub fn write(&mut self, offset: usize, data: &[u8])
        requires
            offset + data@.len() <= PAGE_SIZE,
        ensures
            final(self)@ == overwrite(old(self)@, offset as int, data@),
            final(self).page_id == old(self).page_id,
            final(self).is_dirty == old(self).is_dirty,
            final(self).pin_cnt == old(self).pin_cnt,
    {
        let n = data.len();
        let mut i: usize = 0;
        while i < n
            invariant
                i <= n,
                n == data@.len(),
                offset + n <= PAGE_SIZE,
                self.page_id == old(self).page_id,
                self.pin_cnt == old(self).pin_cnt,
                self.is_dirty == old(self).is_dirty,
                forall|j: int|
                    0 <= j < PAGE_SIZE ==> self.data@[j] == (if offset <= j < offset + i {
                        data@[j - offset]
                    } else {
                        old(self).data@[j]
                    }),
            decreases n - i,
        {
            self.data[offset + i] = data[i];
            i = i + 1;
        }
        assert(self@ =~= overwrite(old(self)@, offset as int, data@));
    }

    pub fn data(&self) -> (data: &[u8])
        ensures
            data@ == self@,
    {
        self.data.as_slice()
    }

    pub fn data_mut(&mut self) -> (data: &mut [u8])
        ensures
            data@ == old(self)@,
            final(self)@ == final(data)@,
            final(self).page_id == old(self).page_id,
            final(self).is_dirty == old(self).is_dirty,
            final(self).pin_cnt == old(self).pin_cnt,
    {
        &mut self.data
    }
}

} // verus!
