use crate::buffer_pool::BufferPoolManager;
use crate::codec::u64_bytes;
use crate::disk_manager::{DiskWrite, WriteView};
use crate::error::Error;
use crate::frame::{overwrite, zeroes};
use crate::frame_handle::PageFrameMutHandle;
use crate::pool_model::{fetch_returns, fetched_frame, CreateOutcome, FetchOutcome, PoolView};
use crate::record_id::RecordId;
use crate::replacer::Replacer;
use crate::table_page::{
    header_bytes, insert_offset, lemma_fresh_page, lemma_insert_then_lookup, lookup,
    lookup_returns, tuple_count_of, with_metadata, with_tuple, TablePageHeader, TablePageMut,
    TablePageRef, TupleMetadata, TABLE_PAGE_HEADER_SIZE, TUPLE_INFO_SIZE,
};
use crate::table_page_iterator::TablePageIterator;
use crate::tuple::Tuple;
use crate::typedef::{FrameId, PageId, INVALID_PAGE_ID, PAGE_SIZE};
use vstd::prelude::*;

verus! {

/// A table as a chain of table pages: tuples go into the last page, and a new
/// page is linked behind it when that one is full.
pub struct TableHeap {
    page_cnt: u32,
    first_page_id: PageId,
    last_page_id: PageId,
}

/// The bytes of an empty table page that no page follows.
pub open spec fn empty_page() -> Seq<u8> {
    overwrite(
        zeroes(PAGE_SIZE as nat),
        0,
        header_bytes(
            TablePageHeader { next_page_id: INVALID_PAGE_ID, tuple_cnt: 0, deleted_tuple_cnt: 0 },
        ),
    )
}

/// The metadata of a tuple that was just inserted.
pub open spec fn fresh_metadata() -> TupleMetadata {
    TupleMetadata { is_deleted: 0 }
}

/// The metadata of a tuple that was deleted.
pub open spec fn deleted_metadata() -> TupleMetadata {
    TupleMetadata { is_deleted: 1 }
}

/// What it comes to when a full last page, pinned in frame `f`, gets a new
/// page linked behind it for `tuple`: `r` is returned, the pool goes from
/// `before` to `after`, the heap from `heap` to `heap_after`, and the file
/// has to take `written`. `victim` is the frame that the replacer would
/// evict.
pub open spec fn grown(
    before: PoolView,
    f: FrameId,
    victim: Option<FrameId>,
    heap: TableHeap,
    tuple: Seq<u8>,
    r: Result<RecordId, Error>,
    after: PoolView,
    heap_after: TableHeap,
    written: Seq<WriteView>,
) -> bool {
    let new_page_id = before.next_page_id();
    let created = before.after_create(victim);
    let linked = created.with_data(
        f,
        overwrite(before.frames[f as int].data, 0, u64_bytes(new_page_id)),
    );
    &&& written == before.create_writes(victim)
    &&& match before.create_outcome(victim) {
        CreateOutcome::Created(f2) => match insert_offset(empty_page(), tuple.len() as int) {
            Some(offset) => {
                &&& r matches Ok(rid)
                &&& rid.page_id() == new_page_id
                &&& rid.slot_id() == 0
                &&& after == linked.with_data(
                    f2,
                    with_tuple(empty_page(), offset, fresh_metadata(), tuple),
                ).unpin(f2, true).unpin(f, true)
                &&& heap_after.first_page_id() == heap.first_page_id()
                &&& heap_after.last_page_id() == new_page_id
                &&& heap_after.page_count() == heap.page_count() + 1
            },
            None => {
                &&& r matches Err(Error::OutOfBounds)
                &&& after == linked.with_data(f2, empty_page()).unpin(f2, true).unpin(f, true)
                &&& heap_after == heap
            },
        },
        CreateOutcome::Full => {
            &&& r matches Err(Error::BufferPoolFull)
            &&& after == created.unpin(f, true)
            &&& heap_after == heap
        },
        CreateOutcome::Overflow => {
            &&& r matches Err(Error::ArithmeticOverflow)
            &&& after == created.unpin(f, true)
            &&& heap_after == heap
        },
    }
}

impl TableHeap {
    pub closed spec fn spec_first_page_id(&self) -> PageId {
        self.first_page_id
    }

    /// The page that takes the next tuple.
    pub closed spec fn spec_last_page_id(&self) -> PageId {
        self.last_page_id
    }

    /// Number of pages in the chain.
    pub closed spec fn spec_page_count(&self) -> u32 {
        self.page_cnt
    }

    /// A table of one empty page, which is created in `bpm`.
    pub fn new<R: Replacer>(bpm: &mut BufferPoolManager<R>, writes: &mut Vec<DiskWrite>) -> (r:
        Result<TableHeap, Error>)
        requires
            old(bpm).wf(),
            old(bpm).accesses_left() > 0,
        ensures
            final(bpm).wf(),
            final(bpm).accesses_left() >= old(bpm).accesses_left() - 1,
            final(writes).deep_view() == old(writes).deep_view() + old(bpm)@.create_writes(
                old(bpm).victim(),
            ),
            match old(bpm)@.create_outcome(old(bpm).victim()) {
                CreateOutcome::Created(f) => {
                    &&& r matches Ok(heap)
                    &&& heap.first_page_id() == old(bpm)@.next_page_id()
                    &&& heap.last_page_id() == old(bpm)@.next_page_id()
                    &&& heap.page_count() == 1
                    &&& final(bpm)@ == old(bpm)@.after_create(old(bpm).victim()).with_data(
                        f,
                        empty_page(),
                    ).unpin(f, true)
                },
                CreateOutcome::Full => {
                    &&& r matches Err(Error::BufferPoolFull)
                    &&& final(bpm)@ == old(bpm)@.after_create(old(bpm).victim())
                },
                CreateOutcome::Overflow => {
                    &&& r matches Err(Error::ArithmeticOverflow)
                    &&& final(bpm)@ == old(bpm)@.after_create(old(bpm).victim())
                },
            },
    {
        let root_page_handle = match bpm.create_page_handle(writes) {
            Ok(handle) => handle,
            Err(e) => {
                return Err(e);
            },
        };
        let mut table_page = TablePageMut::new(root_page_handle.page_frame_mut(bpm));
        table_page.init_header(INVALID_PAGE_ID);
        let first_page_id = table_page.page_id();
        root_page_handle.release(bpm);
        Ok(TableHeap { page_cnt: 1, first_page_id, last_page_id: first_page_id })
    }

    /// Looks up the tuple that `rid` names. `raw` holds what the file has
    /// from the start of the page of `rid` on; it is read only if that page
    /// is not resident.
    pub fn get_tuple<R: Replacer>(
        &self,
        bpm: &mut BufferPoolManager<R>,
        rid: &RecordId,
        raw: &[u8],
        writes: &mut Vec<DiskWrite>,
    ) -> (r: Result<(TupleMetadata, Tuple), Error>)
        requires
            old(bpm).wf(),
            old(bpm).accesses_left() > 0,
            old(bpm).pin_count_of(rid.page_id()) < u16::MAX,
        ensures
            final(bpm).wf(),
            final(bpm).accesses_left() >= old(bpm).accesses_left() - 1,
            final(writes).deep_view() == old(writes).deep_view() + old(bpm)@.fetch_writes(
                old(bpm).victim(),
                rid.page_id(),
                raw@,
            ),
            match fetched_frame(old(bpm)@.fetch_outcome(old(bpm).victim(), rid.page_id(), raw@)) {
                Some(f) => {
                    &&& final(bpm)@ == old(bpm)@.after_fetch(
                        old(bpm).victim(),
                        rid.page_id(),
                        raw@,
                    ).unpin(f, false)
                    &&& lookup_returns(
                        old(bpm)@.after_fetch(
                            old(bpm).victim(),
                            rid.page_id(),
                            raw@,
                        ).frames[f as int].data,
                        rid.page_id(),
                        *rid,
                        r,
                    )
                },
                None => {
                    &&& final(bpm)@ == old(bpm)@
                    &&& r matches Err(e) && fetch_returns(
                        old(bpm)@.fetch_outcome(old(bpm).victim(), rid.page_id(), raw@),
                        rid.page_id(),
                        Err(e),
                    )
                },
            },
    {
        let page_id = rid.page_id();
        let page_handle = match bpm.fetch_page_handle(&page_id, raw, writes) {
            Ok(handle) => handle,
            Err(e) => {
                return Err(e);
            },
        };
        let table_page_ref = TablePageRef::new(page_handle.page_frame(bpm));
        let r = table_page_ref.get_tuple(rid);
        page_handle.release(bpm);
        r
    }

    /// Marks the tuple that `rid` names as deleted and returns it as it was
    /// before. `raw` holds what the file has from the start of the page of
    /// `rid` on; it is read only if that page is not resident.
    pub fn delete_tuple<R: Replacer>(
        &self,
        bpm: &mut BufferPoolManager<R>,
        rid: &RecordId,
        raw: &[u8],
        writes: &mut Vec<DiskWrite>,
    ) -> (r: Result<(TupleMetadata, Tuple), Error>)
        requires
            old(bpm).wf(),
            old(bpm).accesses_left() > 1,
            old(bpm).pin_count_of(rid.page_id()) < u16::MAX,
        ensures
            final(bpm).wf(),
            final(bpm).accesses_left() >= old(bpm).accesses_left() - 2,
            final(writes).deep_view() == old(writes).deep_view() + old(bpm)@.fetch_writes(
                old(bpm).victim(),
                rid.page_id(),
                raw@,
            ),
            match fetched_frame(old(bpm)@.fetch_outcome(old(bpm).victim(), rid.page_id(), raw@)) {
                Some(f) => {
                    let fetched = old(bpm)@.after_fetch(old(bpm).victim(), rid.page_id(), raw@);
                    &&& lookup_returns(fetched.frames[f as int].data, rid.page_id(), *rid, r)
                    &&& final(bpm)@ == (if r is Ok {
                        fetched.with_data(
                            f,
                            with_metadata(
                                fetched.frames[f as int].data,
                                rid.slot_id() as int,
                                deleted_metadata(),
                            ),
                        ).unpin(f, true)
                    } else {
                        fetched.unpin(f, false)
                    })
                },
                None => {
                    &&& final(bpm)@ == old(bpm)@
                    &&& r matches Err(e) && fetch_returns(
                        old(bpm)@.fetch_outcome(old(bpm).victim(), rid.page_id(), raw@),
                        rid.page_id(),
                        Err(e),
                    )
                },
            },
    {
        let ghost outcome = old(bpm)@.fetch_outcome(old(bpm).victim(), rid.page_id(), raw@);
        let ghost fetched = old(bpm)@.after_fetch(old(bpm).victim(), rid.page_id(), raw@);
        let old_data = match self.get_tuple(bpm, rid, raw, writes) {
            Ok(old_data) => old_data,
            Err(e) => {
                return Err(e);
            },
        };
        let ghost f = fetched_frame(outcome).unwrap();
        let ghost released = bpm@;
        let page_id = rid.page_id();
        proof {
            old(bpm).lemma_victim_is_offered();
            old(bpm)@.lemma_fetched(old(bpm).victim(), page_id, raw@);
            assert(released.page_table.contains_key(page_id));
            assert(released.page_table[page_id] == f);
        }
        let page_handle = match bpm.fetch_page_mut_handle(&page_id, raw, writes) {
            Ok(handle) => handle,
            Err(e) => {
                assert(false);
                return Err(e);
            },
        };
        let ghost pinned = bpm@;
        let mut marked = old_data.0;
        marked.set_deleted(true);
        let mut table_page_mut = TablePageMut::new(page_handle.page_frame_mut(bpm));
        match table_page_mut.update_tuple_metadata(rid, marked) {
            Ok(_) => {},
            Err(e) => {
                assert(false);
                return Err(e);
            },
        }
        page_handle.release(bpm);
        proof {
            let data = fetched.frames[f as int].data;
            let expected = fetched.with_data(
                f,
                with_metadata(data, rid.slot_id() as int, deleted_metadata()),
            ).unpin(f, true);
            assert(pinned.frames[f as int] == fetched.frames[f as int]);
            assert(bpm@.frames =~= expected.frames);
            assert(bpm@.nodes =~= expected.nodes);
            assert(writes.deep_view() =~= old(writes).deep_view() + old(bpm)@.fetch_writes(
                old(bpm).victim(),
                rid.page_id(),
                raw@,
            ));
        }
        Ok(old_data)
    }

    /// Stores `tuple` in the last page of the chain, or, if it does not fit
    /// there, in a new page that is linked behind it. `raw` holds what the
    /// file has from the start of the last page on; it is read only if that
    /// page is not resident.
    pub fn insert_tuple<R: Replacer>(
        &mut self,
        bpm: &mut BufferPoolManager<R>,
        tuple: &Tuple,
        raw: &[u8],
        writes: &mut Vec<DiskWrite>,
    ) -> (r: Result<RecordId, Error>)
        requires
            old(bpm).wf(),
            old(bpm).accesses_left() > 1,
            old(bpm).pin_count_of(old(self).last_page_id()) < u16::MAX,
            old(self).page_count() < u32::MAX,
        ensures
            final(bpm).wf(),
            final(bpm).accesses_left() >= old(bpm).accesses_left() - 2,
            match fetched_frame(
                old(bpm)@.fetch_outcome(old(bpm).victim(), old(self).last_page_id(), raw@),
            ) {
                Some(f) => {
                    let fetched = old(bpm)@.after_fetch(
                        old(bpm).victim(),
                        old(self).last_page_id(),
                        raw@,
                    );
                    let fetch_writes = old(bpm)@.fetch_writes(
                        old(bpm).victim(),
                        old(self).last_page_id(),
                        raw@,
                    );
                    match insert_offset(fetched.frames[f as int].data, tuple@.len() as int) {
                        Some(offset) => {
                            &&& r matches Ok(rid)
                            &&& rid.page_id() == old(self).last_page_id()
                            &&& rid.slot_id() == tuple_count_of(
                                fetched.frames[f as int].data,
                            )
                            &&& final(bpm)@ == fetched.with_data(
                                f,
                                with_tuple(
                                    fetched.frames[f as int].data,
                                    offset,
                                    fresh_metadata(),
                                    tuple@,
                                ),
                            ).unpin(f, true)
                            &&& *final(self) == *old(self)
                            &&& final(writes).deep_view() == old(writes).deep_view()
                                + fetch_writes
                        },
                        None => exists|victim: Option<FrameId>, written: Seq<WriteView>|
                            {
                                &&& #[trigger] grown(
                                    fetched,
                                    f,
                                    victim,
                                    *old(self),
                                    tuple@,
                                    r,
                                    final(bpm)@,
                                    *final(self),
                                    written,
                                )
                                &&& fetched.offers(victim)
                                &&& final(writes).deep_view() == old(writes).deep_view()
                                    + fetch_writes + written
                            },
                    }
                },
                None => {
                    &&& final(bpm)@ == old(bpm)@
                    &&& *final(self) == *old(self)
                    &&& final(writes).deep_view() == old(writes).deep_view()
                    &&& r matches Err(e) && fetch_returns(
                        old(bpm)@.fetch_outcome(
                            old(bpm).victim(),
                            old(self).last_page_id(),
                            raw@,
                        ),
                        old(self).last_page_id(),
                        Err(e),
                    )
                },
            },
    {
        let metadata = TupleMetadata::new(false);
        let last_page = self.last_page_id;
        proof {
            old(bpm).lemma_victim_is_offered();
            if fetched_frame(old(bpm)@.fetch_outcome(old(bpm).victim(), last_page, raw@))
                is Some {
                old(bpm)@.lemma_fetched(old(bpm).victim(), last_page, raw@);
            }
        }
        let page_handle = match bpm.fetch_page_mut_handle(&last_page, raw, writes) {
            Ok(handle) => handle,
            Err(e) => {
                return Err(e);
            },
        };
        let ghost fetched = bpm@;
        let ghost f = page_handle.frame_id();
        let mut table_page = TablePageMut::new(page_handle.page_frame_mut(bpm));
        match table_page.insert_tuple(&metadata, tuple) {
            Ok(rid) => {
                page_handle.release(bpm);
                Ok(rid)
            },
            Err(_) => {
                proof {
                    assert(bpm@.frames =~= fetched.frames);
                    bpm.lemma_victim_is_offered();
                }
                let ghost victim = bpm.victim();
                let ghost before = writes.deep_view();
                let r = self.grow(bpm, page_handle, tuple, writes);
                proof {
                    let written = fetched.create_writes(victim);
                    assert(grown(
                        fetched,
                        f,
                        victim,
                        *old(self),
                        tuple@,
                        r,
                        bpm@,
                        *self,
                        written,
                    ));
                    assert(writes.deep_view() =~= old(writes).deep_view() + old(
                        bpm,
                    )@.fetch_writes(old(bpm).victim(), last_page, raw@) + written);
                }
                r
            },
        }
    }

    /// Links a new page behind the last page, which `page_handle` pins and
    /// which is full, and stores `tuple` in the new page. Gives back both
    /// pins.
    pub fn grow<R: Replacer>(
        &mut self,
        bpm: &mut BufferPoolManager<R>,
        page_handle: PageFrameMutHandle,
        tuple: &Tuple,
        writes: &mut Vec<DiskWrite>,
    ) -> (r: Result<RecordId, Error>)
        requires
            old(bpm).wf(),
            old(bpm).accesses_left() > 0,
            page_handle.held_by(old(bpm)),
            page_handle.page_id() == old(self).last_page_id(),
            old(self).page_count() < u32::MAX,
        ensures
            final(bpm).wf(),
            final(bpm).accesses_left() >= old(bpm).accesses_left() - 1,
            grown(
                old(bpm)@,
                page_handle.frame_id(),
                old(bpm).victim(),
                *old(self),
                tuple@,
                r,
                final(bpm)@,
                *final(self),
                old(bpm)@.create_writes(old(bpm).victim()),
            ),
            final(writes).deep_view() == old(writes).deep_view() + old(bpm)@.create_writes(
                old(bpm).victim(),
            ),
    {
        let metadata = TupleMetadata::new(false);
        let ghost f = page_handle.frame_id();
        let ghost start = bpm@;
        let ghost victim = bpm.victim();
        proof {
            bpm.lemma_victim_is_offered();
            assert(start.frames[f as int].pin_count > 0);
            if start.create_outcome(victim) is Created {
                start.lemma_allocate_wf(None);
                start.allocate().lemma_claim_keeps_pinned(victim, f);
                start.allocate().lemma_claim_wf(victim);
            }
        }
        let new_page_handle = match bpm.create_page_handle(writes) {
            Ok(handle) => handle,
            Err(e) => {
                page_handle.release(bpm);
                return Err(e);
            },
        };
        let ghost f2 = new_page_handle.frame_id();
        let ghost created = bpm@;
        let new_page_id = new_page_handle.page_id();
        proof {
            assert(created.frames[f as int] == start.frames[f as int]);
            assert(created.page_table.contains_key(page_handle.page_id()));
            assert(created.page_table[page_handle.page_id()] == f);
        }

        let mut table_page = TablePageMut::new(page_handle.page_frame_mut(bpm));
        table_page.set_next_page_id(new_page_id);
        let ghost linked = bpm@;
        proof {
            assert(linked == created.with_data(
                f,
                overwrite(start.frames[f as int].data, 0, u64_bytes(new_page_id)),
            ));
            assert(linked.frames[f2 as int] == created.frames[f2 as int]);
        }

        let mut new_table_page = TablePageMut::new(new_page_handle.page_frame_mut(bpm));
        new_table_page.init_header(INVALID_PAGE_ID);
        let inserted = new_table_page.insert_tuple(&metadata, tuple);
        proof {
            lemma_fresh_page(
                zeroes(PAGE_SIZE as nat),
                INVALID_PAGE_ID,
                tuple@.len() as int,
            );
        }
        new_page_handle.release(bpm);
        page_handle.release(bpm);
        match inserted {
            Ok(rid) => {
                self.last_page_id = new_page_id;
                self.page_cnt = self.page_cnt + 1;
                Ok(rid)
            },
            Err(e) => Err(e),
        }
    }

    /// An iterator over the pages of the table, from the first page on.
    pub fn page_iter(&self) -> (iter: TablePageIterator)
        ensures
            iter.current_page_id() == self.first_page_id(),
    {
        TablePageIterator::new(self.first_page_id())
    }

    #[verifier::when_used_as_spec(spec_first_page_id)]
    pub fn first_page_id(&self) -> (page_id: PageId)
        ensures
            page_id == self.spec_first_page_id(),
    {
        self.first_page_id
    }

    #[verifier::when_used_as_spec(spec_last_page_id)]
    pub fn last_page_id(&self) -> (page_id: PageId)
        ensures
            page_id == self.spec_last_page_id(),
    {
        self.last_page_id
    }

    #[verifier::when_used_as_spec(spec_page_count)]
    pub fn page_count(&self) -> (count: u32)
        ensures
            count == self.spec_page_count(),
    {
        self.page_cnt
    }
}

/// Round trip through the heap: after a tuple went into the page that frame
/// `f` holds pinned, and the pin was given back, a lookup of the record id
/// that the insertion returned finds the page resident and in it the tuple,
/// not deleted.
pub proof fn lemma_inserted_tuple_is_found(
    pool: PoolView,
    f: FrameId,
    tuple: Seq<u8>,
    rid: RecordId,
    victim: Option<FrameId>,
    raw: Seq<u8>,
)
    requires
        pool.wf(None),
        pool.holds_page(f),
        pool.frames[f as int].pin_count > 0,
        insert_offset(pool.frames[f as int].data, tuple.len() as int) is Some,
        rid.page_id() == pool.frames[f as int].page_id,
        rid.slot_id() == tuple_count_of(pool.frames[f as int].data),
    ensures
        ({
            let data = pool.frames[f as int].data;
            let after = pool.with_data(
                f,
                with_tuple(
                    data,
                    insert_offset(data, tuple.len() as int).unwrap(),
                    fresh_metadata(),
                    tuple,
                ),
            ).unpin(f, true);
            &&& after.wf(None)
            &&& after.fetch_outcome(victim, rid.page_id(), raw) == FetchOutcome::Hit(f)
            &&& lookup(
                after.after_fetch(victim, rid.page_id(), raw).frames[f as int].data,
                rid.page_id(),
                rid,
            ) == Some((fresh_metadata(), tuple))
        }),
{
    let data = pool.frames[f as int].data;
    let offset = insert_offset(data, tuple.len() as int).unwrap();
    let written = pool.with_data(f, with_tuple(data, offset, fresh_metadata(), tuple));
    lemma_insert_then_lookup(
        data,
        rid.page_id(),
        fresh_metadata(),
        tuple,
        rid,
    );
    assert(pool.nodes.contains_key(f));
    assert(written.nodes =~= pool.nodes.insert(f, written.frames[f as int].pin_count == 0));
    pool.lemma_frame_change_wf(written, f);
    assert(written.holds_page(f));
    written.lemma_unpin_wf(f, true);
    assert(pool.page_table.contains_key(rid.page_id()));
}

/// Round trip through a new page: a tuple that went into a page that was
/// just linked is found in slot 0 of that page, not deleted.
pub proof fn lemma_first_tuple_of_new_page_is_found(page_id: PageId, tuple: Seq<u8>, rid: RecordId)
    requires
        tuple.len() <= PAGE_SIZE - TABLE_PAGE_HEADER_SIZE
            - TUPLE_INFO_SIZE,
        rid.page_id() == page_id,
        rid.slot_id() == 0,
    ensures
        insert_offset(empty_page(), tuple.len() as int) == Some(PAGE_SIZE - tuple.len()),
        lookup(
            with_tuple(empty_page(), PAGE_SIZE - tuple.len(), fresh_metadata(), tuple),
            page_id,
            rid,
        ) == Some((fresh_metadata(), tuple)),
{
    lemma_fresh_page(
        zeroes(PAGE_SIZE as nat),
        INVALID_PAGE_ID,
        tuple.len() as int,
    );
    lemma_insert_then_lookup(
        empty_page(),
        page_id,
        fresh_metadata(),
        tuple,
        rid,
    );
}

} // verus!
