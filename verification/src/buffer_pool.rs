use crate::disk_manager::{
    bytes_as_slice, bytes_of, page_write, tombstone_write, DiskManager, DiskWrite,
};
use crate::error::Error;
use crate::frame::{lemma_frame_data_len, zeroes, FrameView, PageFrame};
use crate::frame_handle::{PageFrameMutHandle, PageFrameRefHandle};
use crate::pool_model::{
    blank_frame, create_returns, fetch_returns, same_but_data, PoolView,
};
use crate::replacer::{evictable_frames, Replacer};
use crate::typedef::{FrameId, PageId, INVALID_PAGE_ID, PAGE_SIZE};
use std::collections::HashMap;
use std::collections::VecDeque;
use vstd::prelude::*;

verus! {

broadcast use lemma_frame_data_len;

/// The frames as mathematical values.
pub open spec fn frame_views(frames: Seq<PageFrame>) -> Seq<FrameView> {
    Seq::new(frames.len(), |i: int| frames[i]@)
}

/// Keeps a bounded number of pages in memory. It owns the frames, knows which
/// frame holds which page, hands out unused frames first and evicts through
/// its replacer when none is left. It does no I/O: an operation takes what
/// was read from the file and adds to `writes` what the file has to take.
pub struct BufferPoolManager<R: Replacer> {
    frames: Vec<PageFrame>,
    page_table: HashMap<PageId, FrameId>,
    replacer: R,
    free_list: VecDeque<FrameId>,
    disk_manager: DiskManager,
}

impl<R: Replacer> View for BufferPoolManager<R> {
    type V = PoolView;

    closed spec fn view(&self) -> PoolView {
        PoolView {
            frames: frame_views(self.frames@),
            page_table: self.page_table@,
            free_list: self.free_list@,
            nodes: self.replacer.nodes(),
            last_allocated: self.disk_manager.last_allocated(),
        }
    }
}

impl<R: Replacer> BufferPoolManager<R> {
    /// The replacer of the pool.
    pub closed spec fn replacer(&self) -> R {
        self.replacer
    }

    /// What holds of the pool between operations.
    pub open spec fn wf(&self) -> bool {
        &&& self@.wf(None)
        &&& self.replacer().inv()
        &&& self.replacer().nodes() == self@.nodes
    }

    /// How many more times a page can be created or fetched.
    pub open spec fn accesses_left(&self) -> nat {
        self.replacer().accesses_left()
    }

    /// The frame that the replacer would evict next.
    pub open spec fn victim(&self) -> Option<FrameId> {
        self.replacer().victim()
    }

    /// The frame that takes the next page that is not resident yet.
    pub open spec fn next_frame(&self) -> Option<FrameId> {
        self@.next_frame(self.victim())
    }

    /// The replacer's victim is a frame that the pool holds evictable.
    pub proof fn lemma_victim_is_offered(&self)
        requires
            self.wf(),
        ensures
            self@.offers(self.victim()),
    {
        self.replacer().lemma_victim_is_evictable();
    }

    /// How often the page `page_id` is pinned; 0 if it is not resident.
    pub open spec fn pin_count_of(&self, page_id: PageId) -> u16 {
        if self@.page_table.contains_key(page_id) {
            self@.frames[self@.page_table[page_id] as int].pin_count
        } else {
            0
        }
    }

    /// A pool of `pool_size` unused frames.
    pub fn new(pool_size: usize, disk_manager: DiskManager, replacer: R) -> (bpm: Self)
        requires
            replacer.inv(),
            replacer.nodes() == Map::<FrameId, bool>::empty(),
        ensures
            bpm.wf(),
            bpm@.frames == Seq::new(pool_size as nat, |i: int| blank_frame()),
            bpm@.page_table == Map::<PageId, FrameId>::empty(),
            bpm@.free_list == Seq::new(pool_size as nat, |i: int| i as FrameId),
            bpm@.nodes == Map::<FrameId, bool>::empty(),
            bpm@.last_allocated == disk_manager.last_allocated(),
            bpm.replacer() == replacer,
    {
        let mut frames: Vec<PageFrame> = Vec::new();
        let mut free_list: VecDeque<FrameId> = VecDeque::new();
        let mut i: usize = 0;
        while i < pool_size
            invariant
                i <= pool_size,
                frames@.len() == i,
                free_list@.len() == i,
                forall|j: int| 0 <= j < i ==> (#[trigger] frames@[j])@ == blank_frame(),
                forall|j: int| 0 <= j < i ==> #[trigger] free_list@[j] == j as FrameId,
            decreases pool_size - i,
        {
            frames.push(PageFrame::new());
            free_list.push_back(i);
            i = i + 1;
        }
        let bpm = BufferPoolManager {
            frames,
            page_table: HashMap::new(),
            replacer,
            free_list,
            disk_manager,
        };
        assert(bpm@.frames =~= Seq::new(pool_size as nat, |i: int| blank_frame()));
        assert(bpm@.free_list =~= Seq::new(pool_size as nat, |i: int| i as FrameId));
        assert(bpm@.page_table.dom() =~= Set::<PageId>::empty());
        assert forall|f: FrameId| f < bpm@.frames.len() implies bpm@.free_list.contains(f) by {
            assert(bpm@.free_list[f as int] == f);
        }
        bpm
    }

    /// Number of frames.
    pub fn capacity(&self) -> (n: usize)
        ensures
            n == self@.frames.len(),
    {
        self.frames.len()
    }

    /// Takes a frame out for a new page: the first of the free list, or else
    /// the replacer's victim, whose page is written back if it is dirty.
    fn get_free_frame(&mut self, writes: &mut Vec<DiskWrite>) -> (r: Result<FrameId, Error>)
        requires
            old(self).wf(),
        ensures
            final(self).replacer().inv(),
            final(self).replacer().nodes() == final(self)@.nodes,
            final(self)@.frames.len() == old(self)@.frames.len(),
            final(self).accesses_left() == old(self).accesses_left(),
            match r {
                Ok(f) => {
                    &&& old(self)@.has_free_frame()
                    &&& old(self).next_frame() == Some(f)
                    &&& final(self)@ == old(self)@.claim(f)
                    &&& final(self)@.wf(Some(f))
                    &&& final(writes).deep_view() == old(writes).deep_view() + old(
                        self,
                    )@.write_back(f)
                },
                Err(Error::BufferPoolFull) => {
                    &&& !old(self)@.has_free_frame()
                    &&& final(self)@ == old(self)@
                    &&& final(writes).deep_view() == old(writes).deep_view()
                },
                Err(_) => false,
            },
    {
        proof {
            self.lemma_victim_is_offered();
            if self@.has_free_frame() {
                self@.lemma_claim_wf(self.victim());
            }
        }
        if let Some(frame_id) = self.free_list.pop_front() {
            proof {
                let before = old(self)@;
                let after = self@;
                assert(before.free_list[0] == frame_id);
                assert(!before.holds_page(frame_id));
                assert(!before.page_table.contains_key(INVALID_PAGE_ID));
                assert(after.frames =~= before.frames.update(frame_id as int, blank_frame()));
                assert(after.page_table =~= before.page_table.remove(
                    before.frames[frame_id as int].page_id,
                ));
                assert(after.nodes =~= before.nodes.remove(frame_id));
                assert(after.free_list =~= before.free_list.drop_first());
                assert(writes.deep_view() =~= old(writes).deep_view() + before.write_back(frame_id));
            }
            return Ok(frame_id);
        }
        let frame_id = match self.replacer.evict() {
            Some(frame_id) => frame_id,
            None => {
                return Err(Error::BufferPoolFull);
            },
        };
        proof {
            assert(old(self)@.holds_page(frame_id));
            assert(old(self)@.nodes.contains_key(frame_id));
            assert(evictable_frames(old(self)@.nodes) != Set::<FrameId>::empty());
        }
        let page_id = self.frames[frame_id].page_id();
        if self.frames[frame_id].is_dirty() {
            match self.disk_manager.write(&page_id, self.frames[frame_id].data()) {
                Ok(write) => {
                    writes.push(write);
                },
                Err(_) => {
                    assert(false);
                },
            }
        }
        self.page_table.remove(&page_id);
        self.frames[frame_id].reset();
        proof {
            let before = old(self)@;
            let after = self@;
            assert(after.frames =~= before.frames.update(frame_id as int, blank_frame()));
            assert(after.free_list =~= before.free_list);
            assert(writes.deep_view() =~= old(writes).deep_view() + before.write_back(frame_id));
        }
        Ok(frame_id)
    }

    /// Allocates a new page and gives it a frame, pinned once and filled
    /// with zeroes. Returns the frame.
    pub fn create_page(&mut self, writes: &mut Vec<DiskWrite>) -> (r: Result<FrameId, Error>)
        requires
            old(self).wf(),
            old(self).accesses_left() > 0,
        ensures
            final(self).wf(),
            final(self)@.frames.len() == old(self)@.frames.len(),
            final(self).accesses_left() >= old(self).accesses_left() - 1,
            create_returns(old(self)@.create_outcome(old(self).victim()), r),
            final(self)@ == old(self)@.after_create(old(self).victim()),
            final(writes).deep_view() == old(writes).deep_view() + old(self)@.create_writes(
                old(self).victim(),
            ),
    {
        let (new_page_id, write) = match self.disk_manager.allocate_page() {
            Ok(allocated) => allocated,
            Err(_) => {
                proof {
                    if old(self)@.last_allocated < u64::MAX {
                        old(self)@.lemma_allocate_wf(None);
                    }
                }
                return Err(Error::ArithmeticOverflow);
            },
        };
        writes.push(write);
        proof {
            old(self)@.lemma_allocate_wf(None);
            assert(writes.deep_view() =~= old(writes).deep_view().push(
                page_write(new_page_id, zeroes(PAGE_SIZE as nat)),
            ));
        }
        let ghost allocated = self@;
        let ghost pushed = writes.deep_view();
        let frame_id = match self.get_free_frame(writes) {
            Ok(frame_id) => frame_id,
            Err(e) => {
                return Err(e);
            },
        };
        let ghost claimed = self@;
        self.page_table.insert(new_page_id, frame_id);
        let page_frame = &mut self.frames[frame_id];
        page_frame.set_page_id(new_page_id);
        page_frame.set_dirty(false);
        page_frame.set_pin_count(1);
        self.replacer.record_access(frame_id);
        self.replacer.pin(frame_id);
        proof {
            let installed = claimed.install(frame_id, new_page_id, zeroes(PAGE_SIZE as nat));
            assert(!claimed.page_table.contains_key(new_page_id)) by {
                if allocated.page_table.contains_key(new_page_id) {
                    assert(old(self)@.page_table.contains_key(new_page_id));
                }
            }
            claimed.lemma_install_wf(frame_id, new_page_id, zeroes(PAGE_SIZE as nat));
            assert(!claimed.holds_page(frame_id));
            assert(self@.frames =~= installed.frames);
            assert(self@.nodes =~= installed.nodes);
            assert(self@ == installed);
            assert(writes.deep_view() =~= old(writes).deep_view().push(
                page_write(new_page_id, zeroes(PAGE_SIZE as nat)),
            ) + old(self)@.write_back(frame_id));
        }
        Ok(frame_id)
    }

    /// Pins the page `page_id` and returns its frame. A page that is not
    /// resident is given a frame and takes its bytes from `raw`, which holds
    /// what the file has from the start of the page on, one page at most.
    pub fn fetch_page_mut(
        &mut self,
        page_id: &PageId,
        raw: &[u8],
        writes: &mut Vec<DiskWrite>,
    ) -> (r: Result<FrameId, Error>)
        requires
            old(self).wf(),
            old(self).accesses_left() > 0,
            old(self).pin_count_of(*page_id) < u16::MAX,
        ensures
            final(self).wf(),
            final(self)@.frames.len() == old(self)@.frames.len(),
            final(self).accesses_left() >= old(self).accesses_left() - 1,
            fetch_returns(
                old(self)@.fetch_outcome(old(self).victim(), *page_id, raw@),
                *page_id,
                r,
            ),
            final(self)@ == old(self)@.after_fetch(old(self).victim(), *page_id, raw@),
            final(writes).deep_view() == old(writes).deep_view() + old(self)@.fetch_writes(
                old(self).victim(),
                *page_id,
                raw@,
            ),
    {
        let resident: Option<FrameId> = match self.page_table.get(page_id) {
            Some(frame_id) => Some(*frame_id),
            None => None,
        };
        if let Some(frame_id) = resident {
            proof {
                assert(old(self)@.holds_page(frame_id));
                old(self)@.lemma_pin_wf(frame_id);
            }
            self.frames[frame_id].increment_pin_count();
            self.replacer.record_access(frame_id);
            self.replacer.pin(frame_id);
            proof {
                assert(old(self)@.nodes.contains_key(frame_id));
                assert(self@.frames =~= old(self)@.pin(frame_id).frames);
                assert(self@.nodes =~= old(self)@.pin(frame_id).nodes);
            }
            return Ok(frame_id);
        }
        if self.free_list.len() == 0 && self.replacer.evictable_count() == 0 {
            proof {
                self@.lemma_free_frames_bounded();
                evictable_frames(self@.nodes).lemma_len0_is_empty();
            }
            return Err(Error::BufferPoolFull);
        }
        proof {
            self@.lemma_free_frames_bounded();
            if self@.free_list.len() == 0 {
                assert(evictable_frames(self@.nodes).len() != 0);
                assert(evictable_frames(self@.nodes) != Set::<FrameId>::empty());
            }
        }
        let page_data = match self.disk_manager.read(page_id, raw) {
            Ok(Some(page_data)) => page_data,
            Ok(None) => {
                return Err(Error::IO(crate::record_id::decimal_string(*page_id)));
            },
            Err(e) => {
                return Err(e);
            },
        };
        let frame_id = match self.get_free_frame(writes) {
            Ok(frame_id) => frame_id,
            Err(e) => {
                assert(false);
                return Err(e);
            },
        };
        let ghost claimed = self@;
        self.page_table.insert(*page_id, frame_id);
        let page_frame = &mut self.frames[frame_id];
        page_frame.set_page_id(*page_id);
        page_frame.set_dirty(false);
        page_frame.set_pin_count(1);
        page_frame.write(0, bytes_as_slice(&page_data));
        self.replacer.record_access(frame_id);
        self.replacer.pin(frame_id);
        proof {
            let installed = claimed.install(frame_id, *page_id, bytes_of(page_data));
            claimed.lemma_install_wf(frame_id, *page_id, bytes_of(page_data));
            assert(!claimed.holds_page(frame_id));
            assert(self@.frames[frame_id as int].data =~= bytes_of(page_data));
            assert(self@.frames =~= installed.frames);
            assert(self@.nodes =~= installed.nodes);
            assert(self@ == installed);
        }
        Ok(frame_id)
    }

    /// Pins the page `page_id` for reading and returns its frame.
    pub fn fetch_page(&mut self, page_id: &PageId, raw: &[u8], writes: &mut Vec<DiskWrite>) -> (r:
        Result<FrameId, Error>)
        requires
            old(self).wf(),
            old(self).accesses_left() > 0,
            old(self).pin_count_of(*page_id) < u16::MAX,
        ensures
            final(self).wf(),
            final(self)@.frames.len() == old(self)@.frames.len(),
            final(self).accesses_left() >= old(self).accesses_left() - 1,
            fetch_returns(
                old(self)@.fetch_outcome(old(self).victim(), *page_id, raw@),
                *page_id,
                r,
            ),
            final(self)@ == old(self)@.after_fetch(old(self).victim(), *page_id, raw@),
            final(writes).deep_view() == old(writes).deep_view() + old(self)@.fetch_writes(
                old(self).victim(),
                *page_id,
                raw@,
            ),
    {
        self.fetch_page_mut(page_id, raw, writes)
    }

    /// Takes one pin off the page `page_id`, and marks the page dirty if
    /// `is_dirty` is set. A page that is not resident is left alone.
    pub fn unpin_page(&mut self, page_id: &PageId, is_dirty: bool)
        requires
            old(self).wf(),
            old(self)@.page_table.contains_key(*page_id) ==> old(self).pin_count_of(*page_id) > 0,
        ensures
            final(self).wf(),
            final(self)@.frames.len() == old(self)@.frames.len(),
            final(self).accesses_left() == old(self).accesses_left(),
            final(self)@ == (if old(self)@.page_table.contains_key(*page_id) {
                old(self)@.unpin(old(self)@.page_table[*page_id], is_dirty)
            } else {
                old(self)@
            }),
    {
        let resident: Option<FrameId> = match self.page_table.get(page_id) {
            Some(frame_id) => Some(*frame_id),
            None => None,
        };
        if let Some(frame_id) = resident {
            proof {
                assert(old(self)@.holds_page(frame_id));
                old(self)@.lemma_unpin_wf(frame_id, is_dirty);
            }
            let page_frame = &mut self.frames[frame_id];
            if is_dirty {
                page_frame.set_dirty(true);
            }
            page_frame.decrement_pin_count();
            if page_frame.pin_count() == 0 {
                self.replacer.unpin(frame_id);
            }
            proof {
                assert(old(self)@.nodes.contains_key(frame_id));
                assert(self@.frames =~= old(self)@.unpin(frame_id, is_dirty).frames);
                assert(self@.nodes =~= old(self)@.unpin(frame_id, is_dirty).nodes);
            }
        }
    }

    /// Removes the page `page_id` from the pool and marks it as deallocated
    /// in the file. A page that is not resident is left alone.
    pub fn delete_page(&mut self, page_id: &PageId, writes: &mut Vec<DiskWrite>) -> (r: Result<
        (),
        Error,
    >)
        requires
            old(self).wf(),
            old(self).pin_count_of(*page_id) == 0,
        ensures
            final(self).wf(),
            final(self)@.frames.len() == old(self)@.frames.len(),
            final(self).accesses_left() == old(self).accesses_left(),
            r is Ok,
            final(self)@ == (if old(self)@.page_table.contains_key(*page_id) {
                old(self)@.delete(old(self)@.page_table[*page_id])
            } else {
                old(self)@
            }),
            final(writes).deep_view() == (if old(self)@.page_table.contains_key(*page_id) {
                old(writes).deep_view().push(tombstone_write(*page_id))
            } else {
                old(writes).deep_view()
            }),
    {
        if !self.page_table.contains_key(page_id) {
            return Ok(());
        }
        let frame_id: FrameId = match self.page_table.get(page_id) {
            Some(frame_id) => *frame_id,
            None => {
                return Ok(());
            },
        };
        proof {
            assert(old(self)@.holds_page(frame_id));
            assert(old(self)@.nodes.contains_key(frame_id));
            old(self)@.lemma_delete_wf(frame_id);
        }
        self.replacer.unpin(frame_id);
        self.replacer.remove(frame_id);
        self.page_table.remove(page_id);
        self.free_list.push_back(frame_id);
        match self.disk_manager.deallocate_page(page_id) {
            Ok(write) => {
                writes.push(write);
            },
            Err(_) => {
                assert(false);
            },
        }
        self.frames[frame_id].reset();
        proof {
            assert(self@.frames =~= old(self)@.delete(frame_id).frames);
            assert(self@.nodes =~= old(self)@.delete(frame_id).nodes);
            assert(writes.deep_view() =~= old(writes).deep_view().push(tombstone_write(*page_id)));
        }
        Ok(())
    }

    /// Creates a page and returns the handle of its one pin.
    pub fn create_page_handle(&mut self, writes: &mut Vec<DiskWrite>) -> (r: Result<
        PageFrameMutHandle,
        Error,
    >)
        requires
            old(self).wf(),
            old(self).accesses_left() > 0,
        ensures
            final(self).wf(),
            final(self)@.frames.len() == old(self)@.frames.len(),
            final(self).accesses_left() >= old(self).accesses_left() - 1,
            match r {
                Ok(handle) => {
                    &&& create_returns(
                        old(self)@.create_outcome(old(self).victim()),
                        Ok(handle.frame_id()),
                    )
                    &&& handle.page_id() == old(self)@.next_page_id()
                    &&& handle.held_by(final(self))
                },
                Err(e) => create_returns(old(self)@.create_outcome(old(self).victim()), Err(e)),
            },
            final(self)@ == old(self)@.after_create(old(self).victim()),
            final(writes).deep_view() == old(writes).deep_view() + old(self)@.create_writes(
                old(self).victim(),
            ),
    {
        match self.create_page(writes) {
            Ok(frame_id) => {
                proof {
                    let page_id = old(self)@.next_page_id();
                    assert(self@.page_table.contains_key(page_id));
                    assert(self@.page_table[page_id] == frame_id);
                    assert(self@.frames[frame_id as int].pin_count == 1);
                }
                let page_id = self.frames[frame_id].page_id();
                Ok(PageFrameMutHandle::new(page_id, frame_id))
            },
            Err(e) => Err(e),
        }
    }

    /// Pins the page `page_id` for reading and returns the handle of the pin.
    pub fn fetch_page_handle(
        &mut self,
        page_id: &PageId,
        raw: &[u8],
        writes: &mut Vec<DiskWrite>,
    ) -> (r: Result<PageFrameRefHandle, Error>)
        requires
            old(self).wf(),
            old(self).accesses_left() > 0,
            old(self).pin_count_of(*page_id) < u16::MAX,
        ensures
            final(self).wf(),
            final(self)@.frames.len() == old(self)@.frames.len(),
            final(self).accesses_left() >= old(self).accesses_left() - 1,
            match r {
                Ok(handle) => {
                    &&& fetch_returns(
                        old(self)@.fetch_outcome(old(self).victim(), *page_id, raw@),
                        *page_id,
                        Ok(handle.frame_id()),
                    )
                    &&& handle.page_id() == *page_id
                    &&& handle.held_by(final(self))
                },
                Err(e) => fetch_returns(
                    old(self)@.fetch_outcome(old(self).victim(), *page_id, raw@),
                    *page_id,
                    Err(e),
                ),
            },
            final(self)@ == old(self)@.after_fetch(old(self).victim(), *page_id, raw@),
            final(writes).deep_view() == old(writes).deep_view() + old(self)@.fetch_writes(
                old(self).victim(),
                *page_id,
                raw@,
            ),
    {
        match self.fetch_page(page_id, raw, writes) {
            Ok(frame_id) => {
                proof {
                    assert(self@.page_table.contains_key(*page_id));
                    assert(self@.page_table[*page_id] == frame_id);
                    assert(self@.frames[frame_id as int].pin_count > 0);
                }
                Ok(PageFrameRefHandle::new(*page_id, frame_id))
            },
            Err(e) => Err(e),
        }
    }

    /// Pins the page `page_id` for writing and returns the handle of the pin.
    pub fn fetch_page_mut_handle(
        &mut self,
        page_id: &PageId,
        raw: &[u8],
        writes: &mut Vec<DiskWrite>,
    ) -> (r: Result<PageFrameMutHandle, Error>)
        requires
            old(self).wf(),
            old(self).accesses_left() > 0,
            old(self).pin_count_of(*page_id) < u16::MAX,
        ensures
            final(self).wf(),
            final(self)@.frames.len() == old(self)@.frames.len(),
            final(self).accesses_left() >= old(self).accesses_left() - 1,
            match r {
                Ok(handle) => {
                    &&& fetch_returns(
                        old(self)@.fetch_outcome(old(self).victim(), *page_id, raw@),
                        *page_id,
                        Ok(handle.frame_id()),
                    )
                    &&& handle.page_id() == *page_id
                    &&& handle.held_by(final(self))
                },
                Err(e) => fetch_returns(
                    old(self)@.fetch_outcome(old(self).victim(), *page_id, raw@),
                    *page_id,
                    Err(e),
                ),
            },
            final(self)@ == old(self)@.after_fetch(old(self).victim(), *page_id, raw@),
            final(writes).deep_view() == old(writes).deep_view() + old(self)@.fetch_writes(
                old(self).victim(),
                *page_id,
                raw@,
            ),
    {
        match self.fetch_page_mut(page_id, raw, writes) {
            Ok(frame_id) => {
                proof {
                    assert(self@.page_table.contains_key(*page_id));
                    assert(self@.page_table[*page_id] == frame_id);
                    assert(self@.frames[frame_id as int].pin_count > 0);
                }
                Ok(PageFrameMutHandle::new(*page_id, frame_id))
            },
            Err(e) => Err(e),
        }
    }

    /// Number of frames that are unused or hold a page that nobody pins.
    pub fn free_frame_count(&self) -> (n: usize)
        requires
            self.wf(),
        ensures
            n == self@.free_frame_count(),
    {
        proof {
            self@.lemma_free_frames_bounded();
        }
        let _capacity: usize = self.frames.len();
        self.free_list.len() + self.replacer.evictable_count()
    }

    /// Whether the page `page_id` is resident.
    pub fn contains_page(&self, page_id: &PageId) -> (resident: bool)
        ensures
            resident == self@.page_table.contains_key(*page_id),
    {
        self.page_table.contains_key(page_id)
    }

    /// The frame that holds the page `page_id`, if the page is resident.
    pub fn frame_of(&self, page_id: &PageId) -> (frame_id: Option<FrameId>)
        ensures
            frame_id == (if self@.page_table.contains_key(*page_id) {
                Some(self@.page_table[*page_id])
            } else {
                None
            }),
    {
        match self.page_table.get(page_id) {
            Some(frame_id) => Some(*frame_id),
            None => None,
        }
    }

    /// How many more times a page can be created or fetched.
    pub fn remaining_accesses(&self) -> (count: u64)
        requires
            self.wf(),
        ensures
            count == self.accesses_left(),
    {
        self.replacer.remaining_accesses()
    }

    /// The frame `frame_id`, for reading.
    pub fn frame(&self, frame_id: FrameId) -> (page_frame: &PageFrame)
        requires
            frame_id < self@.frames.len(),
        ensures
            page_frame@ == self@.frames[frame_id as int],
    {
        &self.frames[frame_id]
    }

    /// The frame `frame_id`, for writing. The pool stays well formed as long
    /// as only the bytes of the frame change.
    pub fn frame_mut(&mut self, frame_id: FrameId) -> (page_frame: &mut PageFrame)
        requires
            old(self).wf(),
            frame_id < old(self)@.frames.len(),
        ensures
            page_frame@ == old(self)@.frames[frame_id as int],
            final(self)@ == old(self)@.with_frame(frame_id, final(page_frame)@),
            final(self).replacer() == old(self).replacer(),
            old(self)@.holds_page(frame_id) && same_but_data(
                final(page_frame)@,
                old(self)@.frames[frame_id as int],
            ) ==> final(self).wf(),
    {
        proof {
            let before = old(self)@;
            assert forall|v: FrameView|
                before.holds_page(frame_id) && same_but_data(v, before.frames[frame_id as int])
                    && v.data.len() == PAGE_SIZE implies (#[trigger] before.with_frame(
                    frame_id,
                    v,
                )).wf(None) by {
                let after = before.with_frame(frame_id, v);
                assert(before.nodes.contains_key(frame_id));
                assert(after.nodes =~= before.nodes.insert(
                    frame_id,
                    after.frames[frame_id as int].pin_count == 0,
                ));
                before.lemma_frame_change_wf(after, frame_id);
            }
            assert forall|page_frame: PageFrame| #[trigger]
                frame_views(self.frames@.update(frame_id as int, page_frame))
                    == before.frames.update(frame_id as int, page_frame@) by {
                assert(frame_views(self.frames@.update(frame_id as int, page_frame))
                    =~= before.frames.update(frame_id as int, page_frame@));
            }
        }
        &mut self.frames[frame_id]
    }
}

} // verus!
