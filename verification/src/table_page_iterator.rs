use crate::buffer_pool::BufferPoolManager;
use crate::pool_model::fetched_frame;
use crate::disk_manager::DiskWrite;
use crate::error::Error;
use crate::frame_handle::PageFrameRefHandle;
use crate::record_id::{decimal, decimal_string};
use crate::replacer::Replacer;
use crate::table_page::{header_of, TablePageRef};
use crate::typedef::{PageId, INVALID_PAGE_ID};
use vstd::prelude::*;

verus! {

/// Walks the chain of pages of a table, from a first page on, and hands out
/// each page pinned for reading.
pub struct TablePageIterator {
    current_page_id: PageId,
}

impl TablePageIterator {
    /// The page that the iterator hands out next; `INVALID_PAGE_ID` when
    /// the chain has ended.
    pub closed spec fn spec_current_page_id(&self) -> PageId {
        self.current_page_id
    }

    pub fn new(first_page_id: PageId) -> (iter: TablePageIterator)
        ensures
            iter.current_page_id() == first_page_id,
    {
        TablePageIterator { current_page_id: first_page_id }
    }

    #[verifier::when_used_as_spec(spec_current_page_id)]
    pub fn current_page_id(&self) -> (page_id: PageId)
        ensures
            page_id == self.spec_current_page_id(),
    {
        self.current_page_id
    }

    /// Pins the current page and moves on to the page that follows it.
    /// `None` when the chain has ended. `raw` holds what the file has from
    /// the start of the current page on; it is read only if that page is not
    /// resident.
    pub fn next<R: Replacer>(
        &mut self,
        bpm: &mut BufferPoolManager<R>,
        raw: &[u8],
        writes: &mut Vec<DiskWrite>,
    ) -> (r: Option<Result<PageFrameRefHandle, Error>>)
        requires
            old(bpm).wf(),
            old(bpm).accesses_left() > 0,
            old(bpm).pin_count_of(old(self).current_page_id()) < u16::MAX,
        ensures
            final(bpm).wf(),
            final(bpm).accesses_left() >= old(bpm).accesses_left() - 1,
            old(self).current_page_id() == INVALID_PAGE_ID ==> {
                &&& r is None
                &&& final(bpm)@ == old(bpm)@
                &&& final(self).current_page_id() == INVALID_PAGE_ID
                &&& final(writes).deep_view() == old(writes).deep_view()
            },
            old(self).current_page_id() != INVALID_PAGE_ID ==> match fetched_frame(
                old(bpm)@.fetch_outcome(old(bpm).victim(), old(self).current_page_id(), raw@),
            ) {
                Some(f) => {
                    &&& r matches Some(Ok(handle))
                    &&& handle.page_id() == old(self).current_page_id()
                    &&& handle.frame_id() == f
                    &&& handle.held_by(final(bpm))
                    &&& final(bpm)@ == old(bpm)@.after_fetch(
                        old(bpm).victim(),
                        old(self).current_page_id(),
                        raw@,
                    )
                    &&& final(self).current_page_id() == header_of(
                        final(bpm)@.frames[f as int].data,
                    ).next_page_id
                    &&& final(writes).deep_view() == old(writes).deep_view() + old(
                        bpm,
                    )@.fetch_writes(old(bpm).victim(), old(self).current_page_id(), raw@)
                },
                None => {
                    &&& r matches Some(Err(Error::IO(s)))
                    &&& s@ == decimal(old(self).current_page_id() as nat)
                    &&& final(bpm)@ == old(bpm)@
                    &&& final(self).current_page_id() == old(self).current_page_id()
                    &&& final(writes).deep_view() == old(writes).deep_view()
                },
            },
    {
        if self.current_page_id == INVALID_PAGE_ID {
            return None;
        }
        let page_id = self.current_page_id;
        let new_handle = match bpm.fetch_page_handle(&page_id, raw, writes) {
            Ok(handle) => handle,
            Err(_) => {
                return Some(Err(Error::IO(decimal_string(page_id))));
            },
        };
        let table_page = TablePageRef::new(new_handle.page_frame(bpm));
        self.current_page_id = table_page.next_page_id();
        Some(Ok(new_handle))
    }
}

} // verus!
