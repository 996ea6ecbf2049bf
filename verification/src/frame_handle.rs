use crate::buffer_pool::BufferPoolManager;
use crate::disk_manager::page_offset;
use crate::pool_model::same_but_data;
use crate::frame::PageFrame;
use crate::replacer::Replacer;
use crate::typedef::{FrameId, PageId};
use vstd::prelude::*;

verus! {

/// Stands for one pin on a page, taken for reading. Whoever holds the
/// handle may read the frame; releasing the handle takes the pin off.
pub struct PageFrameRefHandle {
    page_id: PageId,
    frame_id: FrameId,
}

/// Stands for one pin on a page, taken for writing. Whoever holds the
/// handle may change the bytes of the frame; releasing the handle takes the
/// pin off and marks the page dirty.
pub struct PageFrameMutHandle {
    page_id: PageId,
    frame_id: FrameId,
}

/// Whether the pool holds the page `page_id` in frame `frame_id`, pinned.
pub open spec fn pinned_in<R: Replacer>(
    bpm: &BufferPoolManager<R>,
    page_id: PageId,
    frame_id: FrameId,
) -> bool {
    &&& bpm@.page_table.contains_key(page_id)
    &&& bpm@.page_table[page_id] == frame_id
    &&& bpm@.frames[frame_id as int].pin_count > 0
}

impl PageFrameRefHandle {
    pub closed spec fn spec_page_id(&self) -> PageId {
        self.page_id
    }

    pub closed spec fn spec_frame_id(&self) -> FrameId {
        self.frame_id
    }

    /// Whether the handle stands for a pin that `bpm` knows of.
    pub open spec fn held_by<R: Replacer>(&self, bpm: &BufferPoolManager<R>) -> bool {
        pinned_in(bpm, self.page_id(), self.frame_id())
    }

    pub fn new(page_id: PageId, frame_id: FrameId) -> (handle: PageFrameRefHandle)
        ensures
            handle.page_id() == page_id,
            handle.frame_id() == frame_id,
    {
        PageFrameRefHandle { page_id, frame_id }
    }

    #[verifier::when_used_as_spec(spec_page_id)]
    pub fn page_id(&self) -> (page_id: PageId)
        ensures
            page_id == self.spec_page_id(),
    {
        self.page_id
    }

    #[verifier::when_used_as_spec(spec_frame_id)]
    pub fn frame_id(&self) -> (frame_id: FrameId)
        ensures
            frame_id == self.spec_frame_id(),
    {
        self.frame_id
    }

    /// The frame that the handle pins.
    pub fn page_frame<'a, R: Replacer>(&self, bpm: &'a BufferPoolManager<R>) -> (page_frame:
        &'a PageFrame)
        requires
            bpm.wf(),
            self.held_by(bpm),
        ensures
            page_frame@ == bpm@.frames[self.frame_id() as int],
            page_frame@.page_id == self.page_id(),
    {
        bpm.frame(self.frame_id)
    }

    /// Gives the pin back; the page stays as clean or dirty as it was.
    pub fn release<R: Replacer>(self, bpm: &mut BufferPoolManager<R>)
        requires
            old(bpm).wf(),
            self.held_by(old(bpm)),
        ensures
            final(bpm).wf(),
            final(bpm).accesses_left() == old(bpm).accesses_left(),
            final(bpm)@ == old(bpm)@.unpin(self.frame_id(), false),
    {
        bpm.unpin_page(&self.page_id, false);
    }
}

impl PageFrameMutHandle {
    pub closed spec fn spec_page_id(&self) -> PageId {
        self.page_id
    }

    pub closed spec fn spec_frame_id(&self) -> FrameId {
        self.frame_id
    }

    /// Whether the handle stands for a pin that `bpm` knows of.
    pub open spec fn held_by<R: Replacer>(&self, bpm: &BufferPoolManager<R>) -> bool {
        pinned_in(bpm, self.page_id(), self.frame_id())
    }

    pub fn new(page_id: PageId, frame_id: FrameId) -> (handle: PageFrameMutHandle)
        ensures
            handle.page_id() == page_id,
            handle.frame_id() == frame_id,
    {
        PageFrameMutHandle { page_id, frame_id }
    }

    #[verifier::when_used_as_spec(spec_page_id)]
    pub fn page_id(&self) -> (page_id: PageId)
        ensures
            page_id == self.spec_page_id(),
    {
        self.page_id
    }

    #[verifier::when_used_as_spec(spec_frame_id)]
    pub fn frame_id(&self) -> (frame_id: FrameId)
        ensures
            frame_id == self.spec_frame_id(),
    {
        self.frame_id
    }

    /// The frame that the handle pins, for reading.
    pub fn page_frame<'a, R: Replacer>(&self, bpm: &'a BufferPoolManager<R>) -> (page_frame:
        &'a PageFrame)
        requires
            bpm.wf(),
            self.held_by(bpm),
        ensures
            page_frame@ == bpm@.frames[self.frame_id() as int],
            page_frame@.page_id == self.page_id(),
    {
        bpm.frame(self.frame_id)
    }

    /// The frame that the handle pins, for writing. The pool stays well
    /// formed as long as only the bytes of the frame change.
    pub fn page_frame_mut<'a, R: Replacer>(&self, bpm: &'a mut BufferPoolManager<R>) -> (page_frame:
        &'a mut PageFrame)
        requires
            old(bpm).wf(),
            self.held_by(old(bpm)),
        ensures
            page_frame@ == old(bpm)@.frames[self.frame_id() as int],
            page_frame@.page_id == self.page_id(),
            final(bpm)@ == old(bpm)@.with_frame(self.frame_id(), final(page_frame)@),
            final(bpm).replacer() == old(bpm).replacer(),
            same_but_data(final(page_frame)@, old(bpm)@.frames[self.frame_id() as int])
                ==> final(bpm).wf(),
    {
        assert(old(bpm)@.holds_page(self.frame_id)) by {
            assert(page_offset(self.page_id) is Some);
        }
        bpm.frame_mut(self.frame_id)
    }

    /// Gives the pin back and marks the page dirty.
    pub fn release<R: Replacer>(self, bpm: &mut BufferPoolManager<R>)
        requires
            old(bpm).wf(),
            self.held_by(old(bpm)),
        ensures
            final(bpm).wf(),
            final(bpm).accesses_left() == old(bpm).accesses_left(),
            final(bpm)@ == old(bpm)@.unpin(self.frame_id(), true),
    {
        bpm.unpin_page(&self.page_id, true);
    }
}

} // verus!
