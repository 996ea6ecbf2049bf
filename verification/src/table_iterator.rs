use crate::buffer_pool::BufferPoolManager;
use crate::pool_model::fetched_frame;
use crate::disk_manager::DiskWrite;
use crate::error::Error;
use crate::record_id::{decimal, decimal_string, RecordId};
use crate::replacer::Replacer;
use crate::table_heap::{deleted_metadata, TableHeap};
use crate::table_page::{
    header_of, lemma_metadata_update, lemma_slots_below_tuples, page_wf, readable, slot_of,
    tuple_bytes, tuple_count_of, with_metadata, TablePageRef,
};
use crate::tuple::Tuple;
use crate::typedef::{PageId, INVALID_PAGE_ID};
use vstd::prelude::*;

verus! {

/// Walks all tuples of a table that are not deleted: page after page along
/// the chain, and slot after slot in each page.
pub struct TableIterator {
    current_page_id: PageId,
    current_slot: u16,
}

/// What one step of the walk comes to.
pub enum IterStep {
    /// The walk has ended.
    Done,
    /// The next tuple of the table.
    Tuple(RecordId, Tuple),
    /// The step passed a deleted tuple or went on to the next page.
    Skipped,
    /// The current page could not be had.
    Failed(Error),
}

impl TableIterator {
    /// The page that the walk stands in; `INVALID_PAGE_ID` when it has ended.
    pub closed spec fn spec_current_page_id(&self) -> PageId {
        self.current_page_id
    }

    /// The slot that the walk looks at next.
    pub closed spec fn spec_current_slot(&self) -> u16 {
        self.current_slot
    }

    /// A walk that starts at the first tuple of the first page.
    pub fn new(table_heap: &TableHeap) -> (iter: TableIterator)
        ensures
            iter.current_page_id() == table_heap.first_page_id(),
            iter.current_slot() == 0,
    {
        TableIterator { current_page_id: table_heap.first_page_id(), current_slot: 0 }
    }

    #[verifier::when_used_as_spec(spec_current_page_id)]
    pub fn current_page_id(&self) -> (page_id: PageId)
        ensures
            page_id == self.spec_current_page_id(),
    {
        self.current_page_id
    }

    #[verifier::when_used_as_spec(spec_current_slot)]
    pub fn current_slot(&self) -> (slot: u16)
        ensures
            slot == self.spec_current_slot(),
    {
        self.current_slot
    }

    /// Looks at the current slot of the current page and moves on: to the
    /// next slot, or, past the last slot or a slot that cannot be read, to
    /// the first slot of the next page. A tuple that is not deleted is
    /// handed out. `raw` holds what the file has from the start of the
    /// current page on; it is read only if that page is not resident.
    pub fn step<R: Replacer>(
        &mut self,
        bpm: &mut BufferPoolManager<R>,
        raw: &[u8],
        writes: &mut Vec<DiskWrite>,
    ) -> (r: IterStep)
        requires
            old(bpm).wf(),
            old(bpm).accesses_left() > 0,
            old(bpm).pin_count_of(old(self).current_page_id()) < u16::MAX,
        ensures
            final(bpm).wf(),
            final(bpm).accesses_left() >= old(bpm).accesses_left() - 1,
            old(self).current_page_id() == INVALID_PAGE_ID ==> {
                &&& r is Done
                &&& final(bpm)@ == old(bpm)@
                &&& *final(self) == *old(self)
                &&& final(writes).deep_view() == old(writes).deep_view()
            },
            old(self).current_page_id() != INVALID_PAGE_ID ==> match fetched_frame(
                old(bpm)@.fetch_outcome(old(bpm).victim(), old(self).current_page_id(), raw@),
            ) {
                Some(f) => {
                    let fetched = old(bpm)@.after_fetch(
                        old(bpm).victim(),
                        old(self).current_page_id(),
                        raw@,
                    );
                    &&& final(bpm)@ == fetched.unpin(f, false)
                    &&& final(writes).deep_view() == old(writes).deep_view() + old(
                        bpm,
                    )@.fetch_writes(old(bpm).victim(), old(self).current_page_id(), raw@)
                    &&& visited(
                        fetched.frames[f as int].data,
                        *old(self),
                        r,
                        *final(self),
                    )
                },
                None => {
                    &&& r matches IterStep::Failed(Error::IO(s))
                    &&& s@ == decimal(old(self).current_page_id() as nat)
                    &&& final(bpm)@ == old(bpm)@
                    &&& *final(self) == *old(self)
                    &&& final(writes).deep_view() == old(writes).deep_view()
                },
            },
    {
        if self.current_page_id == INVALID_PAGE_ID {
            return IterStep::Done;
        }
        let page_id = self.current_page_id;
        let page_handle = match bpm.fetch_page_handle(&page_id, raw, writes) {
            Ok(handle) => handle,
            Err(_) => {
                return IterStep::Failed(Error::IO(decimal_string(page_id)));
            },
        };
        let table_page = TablePageRef::new(page_handle.page_frame(bpm));
        let tuple_count = table_page.tuple_count();
        let next_page_id = table_page.next_page_id();
        if self.current_slot >= tuple_count {
            self.current_page_id = next_page_id;
            self.current_slot = 0;
            page_handle.release(bpm);
            return IterStep::Skipped;
        }
        let rid = RecordId::new(page_id, self.current_slot);
        self.current_slot = self.current_slot + 1;
        let tuple_result = table_page.get_tuple(&rid);
        page_handle.release(bpm);
        match tuple_result {
            Ok((meta, tuple)) => {
                if !meta.is_deleted() {
                    IterStep::Tuple(rid, tuple)
                } else {
                    IterStep::Skipped
                }
            },
            Err(_) => {
                self.current_page_id = next_page_id;
                self.current_slot = 0;
                IterStep::Skipped
            },
        }
    }
}

/// Whether a step that finds the bytes `data` in the current page of
/// `before` returns `r` and leaves the walk at `after`.
pub open spec fn visited(data: Seq<u8>, before: TableIterator, r: IterStep, after: TableIterator) -> bool {
    let page_id = before.current_page_id();
    let slot = before.current_slot();
    if slot >= tuple_count_of(data) || !readable(data, slot as int) {
        &&& r is Skipped
        &&& after.current_page_id() == header_of(data).next_page_id
        &&& after.current_slot() == 0
    } else {
        &&& after.current_page_id() == page_id
        &&& after.current_slot() == slot + 1
        &&& if slot_of(data, slot as int).metadata.is_deleted() {
            r is Skipped
        } else {
            &&& r matches IterStep::Tuple(rid, tuple)
            &&& rid.page_id() == page_id
            &&& rid.slot_id() == slot
            &&& tuple@ == tuple_bytes(data, slot as int)
        }
    }
}

/// Delete is idempotent: marking a tuple as deleted a second time changes
/// nothing, the tuple stays marked, and the walk passes it by.
pub proof fn lemma_deleted_tuple_stays_skipped(
    data: Seq<u8>,
    before: TableIterator,
    r: IterStep,
    after: TableIterator,
)
    requires
        page_wf(data),
        before.current_slot() < tuple_count_of(data),
        visited(
            with_metadata(
                with_metadata(
                    data,
                    before.current_slot() as int,
                    deleted_metadata(),
                ),
                before.current_slot() as int,
                deleted_metadata(),
            ),
            before,
            r,
            after,
        ),
    ensures
        with_metadata(
            with_metadata(
                data,
                before.current_slot() as int,
                deleted_metadata(),
            ),
            before.current_slot() as int,
            deleted_metadata(),
        ) == with_metadata(
            data,
            before.current_slot() as int,
            deleted_metadata(),
        ),
        slot_of(
            with_metadata(
                data,
                before.current_slot() as int,
                deleted_metadata(),
            ),
            before.current_slot() as int,
        ).metadata.is_deleted(),
        r is Skipped,
{
    lemma_slots_below_tuples(data, before.current_slot() as int);
    lemma_metadata_update(
        data,
        before.current_slot() as int,
        deleted_metadata(),
        before.current_slot() as int,
    );
}

} // verus!
