use crate::disk_manager::{page_offset, page_write, read_outcome, ReadOutcome, WriteView};
use crate::error::Error;
use crate::frame::{zeroes, FrameView};
use crate::record_id::decimal;
use crate::replacer::evictable_frames;
use crate::typedef::{FrameId, PageId, INVALID_PAGE_ID, PAGE_SIZE};
use vstd::prelude::*;

verus! {

/// A frame that holds no page.
pub open spec fn blank_frame() -> FrameView {
    FrameView {
        page_id: INVALID_PAGE_ID,
        is_dirty: false,
        pin_count: 0,
        data: zeroes(PAGE_SIZE as nat),
    }
}

/// The buffer pool as a mathematical value.
pub struct PoolView {
    /// The frames, by frame id.
    pub frames: Seq<FrameView>,
    /// Which frame holds which resident page.
    pub page_table: Map<PageId, FrameId>,
    /// The unused frames, in the order in which they will be handed out.
    pub free_list: Seq<FrameId>,
    /// The frames that the replacer tracks, each with whether it is evictable.
    pub nodes: Map<FrameId, bool>,
    /// The page id that was allocated last.
    pub last_allocated: PageId,
}

impl PoolView {
    /// Whether `frame_id` names a frame that holds a page.
    pub open spec fn holds_page(self, frame_id: FrameId) -> bool {
        frame_id < self.frames.len() && self.frames[frame_id as int].page_id != INVALID_PAGE_ID
    }

    /// What holds of a pool between operations, and, with `detached` set,
    /// while that one frame is taken out to receive a page.
    pub open spec fn wf(self, detached: Option<FrameId>) -> bool {
        &&& self.page_table.dom().finite()
        &&& self.free_list.no_duplicates()
        &&& self.free_list.len() + self.page_table.dom().len() + (if detached is Some {
            1int
        } else {
            0int
        }) == self.frames.len()
        &&& forall|i: int|
            0 <= i < self.frames.len() ==> (#[trigger] self.frames[i]).data.len() == PAGE_SIZE
        &&& detached matches Some(f) ==> {
            &&& f < self.frames.len()
            &&& self.frames[f as int] == blank_frame()
            &&& !self.free_list.contains(f)
        }
        &&& forall|i: int|
            0 <= i < self.free_list.len() ==> {
                &&& (#[trigger] self.free_list[i]) < self.frames.len()
                &&& self.frames[self.free_list[i] as int] == blank_frame()
            }
        &&& forall|p: PageId| #[trigger]
            self.page_table.contains_key(p) ==> {
                &&& self.page_table[p] < self.frames.len()
                &&& self.frames[self.page_table[p] as int].page_id == p
                &&& page_offset(p) is Some
                &&& p <= self.last_allocated
            }
        &&& forall|f: FrameId| #[trigger]
            self.holds_page(f) ==> {
                &&& self.page_table.contains_key(self.frames[f as int].page_id)
                &&& self.page_table[self.frames[f as int].page_id] == f
            }
        &&& forall|f: FrameId|
            f < self.frames.len() && !(#[trigger] self.holds_page(f)) && detached != Some(f)
                ==> self.free_list.contains(f)
        &&& forall|f: FrameId| #[trigger]
            self.nodes.contains_key(f) <==> self.holds_page(f)
        &&& forall|f: FrameId| #[trigger]
            self.nodes.contains_key(f) ==> self.nodes[f] == (self.frames[f as int].pin_count
                == 0)
    }

    /// Whether a frame can be had for a new page: a free one, or one that
    /// can be evicted.
    pub open spec fn has_free_frame(self) -> bool {
        self.free_list.len() > 0 || evictable_frames(self.nodes) != Set::<FrameId>::empty()
    }

    /// Number of frames that are unused or could be evicted.
    pub open spec fn free_frame_count(self) -> nat {
        self.free_list.len() + evictable_frames(self.nodes).len()
    }

    /// Whether `victim` can be what a replacer over the nodes of this pool
    /// would evict.
    pub open spec fn offers(self, victim: Option<FrameId>) -> bool {
        match victim {
            Some(v) => evictable_frames(self.nodes).contains(v),
            None => evictable_frames(self.nodes) == Set::<FrameId>::empty(),
        }
    }

    /// The pool with frame `f` replaced by `frame`.
    pub open spec fn with_frame(self, f: FrameId, frame: FrameView) -> PoolView {
        PoolView { frames: self.frames.update(f as int, frame), ..self }
    }

    /// The pool with the bytes of frame `f` replaced by `data`.
    pub open spec fn with_data(self, f: FrameId, data: Seq<u8>) -> PoolView {
        self.with_frame(f, FrameView { data, ..self.frames[f as int] })
    }

    /// The frame that the next new page gets: the first free one, or else
    /// the replacer's victim.
    pub open spec fn next_frame(self, victim: Option<FrameId>) -> Option<FrameId> {
        if self.free_list.len() > 0 {
            Some(self.free_list[0])
        } else {
            victim
        }
    }

    /// The writes that save the page in frame `f` before the frame is reused.
    pub open spec fn write_back(self, f: FrameId) -> Seq<WriteView> {
        if self.frames[f as int].is_dirty {
            seq![page_write(self.frames[f as int].page_id, self.frames[f as int].data)]
        } else {
            Seq::empty()
        }
    }

    /// The pool after frame `f` was taken out for reuse: off the free list
    /// or out of the replacer and the page table, and blank.
    pub open spec fn claim(self, f: FrameId) -> PoolView {
        PoolView {
            frames: self.frames.update(f as int, blank_frame()),
            page_table: self.page_table.remove(self.frames[f as int].page_id),
            free_list: if self.free_list.len() > 0 {
                self.free_list.drop_first()
            } else {
                self.free_list
            },
            nodes: self.nodes.remove(f),
            last_allocated: self.last_allocated,
        }
    }

    /// The pool after the page `page_id` with the bytes `data` was put into
    /// frame `f` and pinned once.
    pub open spec fn install(self, f: FrameId, page_id: PageId, data: Seq<u8>) -> PoolView {
        PoolView {
            frames: self.frames.update(
                f as int,
                FrameView { page_id, is_dirty: false, pin_count: 1, data },
            ),
            page_table: self.page_table.insert(page_id, f),
            nodes: self.nodes.insert(f, false),
            ..self
        }
    }

    /// The pool after the page in frame `f` was pinned once more.
    pub open spec fn pin(self, f: FrameId) -> PoolView {
        PoolView {
            frames: self.frames.update(
                f as int,
                FrameView {
                    pin_count: (self.frames[f as int].pin_count + 1) as u16,
                    ..self.frames[f as int]
                },
            ),
            nodes: self.nodes.insert(f, false),
            ..self
        }
    }

    /// The pool after one pin was taken off the page in frame `f`.
    pub open spec fn unpin(self, f: FrameId, is_dirty: bool) -> PoolView {
        PoolView {
            frames: self.frames.update(
                f as int,
                FrameView {
                    pin_count: (self.frames[f as int].pin_count - 1) as u16,
                    is_dirty: self.frames[f as int].is_dirty || is_dirty,
                    ..self.frames[f as int]
                },
            ),
            nodes: if self.frames[f as int].pin_count == 1 {
                self.nodes.insert(f, true)
            } else {
                self.nodes
            },
            ..self
        }
    }

    /// The pool after the page in frame `f` was deleted.
    pub open spec fn delete(self, f: FrameId) -> PoolView {
        PoolView {
            frames: self.frames.update(f as int, blank_frame()),
            page_table: self.page_table.remove(self.frames[f as int].page_id),
            free_list: self.free_list.push(f),
            nodes: self.nodes.remove(f),
            ..self
        }
    }
}

/// The frame in which a fetch left its page, if the fetch went well.
pub open spec fn fetched_frame(outcome: FetchOutcome) -> Option<FrameId> {
    match outcome {
        FetchOutcome::Hit(f) => Some(f),
        FetchOutcome::Loaded(f, data) => Some(f),
        _ => None,
    }
}

/// Whether two frames differ in their bytes at most.
pub open spec fn same_but_data(a: FrameView, b: FrameView) -> bool {
    a.page_id == b.page_id && a.pin_count == b.pin_count && a.is_dirty == b.is_dirty
}

/// What the creation of a page comes to.
pub enum CreateOutcome {
    /// The page got this frame.
    Created(FrameId),
    /// No frame can be had for the page.
    Full,
    /// The page would lie beyond what 64 bits can address in the file.
    Overflow,
}

/// Whether `r` is what the creation of a page returns on `outcome`.
pub open spec fn create_returns(outcome: CreateOutcome, r: Result<FrameId, Error>) -> bool {
    match outcome {
        CreateOutcome::Created(f) => r == Ok::<FrameId, Error>(f),
        CreateOutcome::Full => r == Err::<FrameId, Error>(Error::BufferPoolFull),
        CreateOutcome::Overflow => r == Err::<FrameId, Error>(Error::ArithmeticOverflow),
    }
}

/// Whether `r` is what a fetch of `page_id` returns on `outcome`.
pub open spec fn fetch_returns(
    outcome: FetchOutcome,
    page_id: PageId,
    r: Result<FrameId, Error>,
) -> bool {
    match outcome {
        FetchOutcome::Hit(f) => r == Ok::<FrameId, Error>(f),
        FetchOutcome::Loaded(f, data) => r == Ok::<FrameId, Error>(f),
        FetchOutcome::Full => r == Err::<FrameId, Error>(Error::BufferPoolFull),
        FetchOutcome::Overflow => r == Err::<FrameId, Error>(Error::ArithmeticOverflow),
        FetchOutcome::Missing => r matches Err(Error::IO(s)) && s@ == decimal(page_id as nat),
    }
}

/// What a fetch of a page comes to.
pub enum FetchOutcome {
    /// The page is resident, in this frame.
    Hit(FrameId),
    /// The page is not resident and no frame can be had for it.
    Full,
    /// The page lies beyond what 64 bits can address in the file.
    Overflow,
    /// The file does not hold the page, or the page was deallocated.
    Missing,
    /// The page was read into this frame, with these bytes.
    Loaded(FrameId, Seq<u8>),
}

impl PoolView {
    /// The pool after a page id was allocated.
    pub open spec fn allocate(self) -> PoolView {
        PoolView { last_allocated: (self.last_allocated + 1) as PageId, ..self }
    }

    /// What a fetch of `page_id` comes to, when `raw` is what the file holds
    /// from the start of that page on and `victim` is the frame that the
    /// replacer would evict.
    pub open spec fn fetch_outcome(
        self,
        victim: Option<FrameId>,
        page_id: PageId,
        raw: Seq<u8>,
    ) -> FetchOutcome {
        if self.page_table.contains_key(page_id) {
            FetchOutcome::Hit(self.page_table[page_id])
        } else if !self.has_free_frame() {
            FetchOutcome::Full
        } else {
            match read_outcome(self.last_allocated, page_id, raw) {
                ReadOutcome::Overflow => FetchOutcome::Overflow,
                ReadOutcome::Short => FetchOutcome::Missing,
                ReadOutcome::Deleted => FetchOutcome::Missing,
                ReadOutcome::Page(data) => FetchOutcome::Loaded(
                    self.next_frame(victim).unwrap(),
                    data,
                ),
            }
        }
    }

    /// The pool after a fetch of `page_id`.
    pub open spec fn after_fetch(
        self,
        victim: Option<FrameId>,
        page_id: PageId,
        raw: Seq<u8>,
    ) -> PoolView {
        match self.fetch_outcome(victim, page_id, raw) {
            FetchOutcome::Hit(f) => self.pin(f),
            FetchOutcome::Loaded(f, data) => self.claim(f).install(f, page_id, data),
            _ => self,
        }
    }

    /// What a fetch of `page_id` has the file take: the page that it evicts,
    /// if it evicts one that is dirty.
    pub open spec fn fetch_writes(
        self,
        victim: Option<FrameId>,
        page_id: PageId,
        raw: Seq<u8>,
    ) -> Seq<WriteView> {
        match self.fetch_outcome(victim, page_id, raw) {
            FetchOutcome::Loaded(f, data) => self.write_back(f),
            _ => Seq::empty(),
        }
    }

    /// The page id that the next page gets.
    pub open spec fn next_page_id(self) -> PageId {
        (self.last_allocated + 1) as PageId
    }

    /// What the creation of a page comes to, when `victim` is the frame
    /// that the replacer would evict.
    pub open spec fn create_outcome(self, victim: Option<FrameId>) -> CreateOutcome {
        if self.last_allocated == u64::MAX || page_offset(self.next_page_id()) is None {
            CreateOutcome::Overflow
        } else if !self.has_free_frame() {
            CreateOutcome::Full
        } else {
            CreateOutcome::Created(self.next_frame(victim).unwrap())
        }
    }

    /// The pool after the creation of a page.
    pub open spec fn after_create(self, victim: Option<FrameId>) -> PoolView {
        match self.create_outcome(victim) {
            CreateOutcome::Created(f) => self.allocate().claim(f).install(
                f,
                self.next_page_id(),
                zeroes(PAGE_SIZE as nat),
            ),
            CreateOutcome::Full => self.allocate(),
            CreateOutcome::Overflow => if self.last_allocated == u64::MAX {
                self
            } else {
                self.allocate()
            },
        }
    }

    /// What the creation of a page has the file take: the zeroes of the new
    /// page, then the page that was evicted, if one was and it was dirty.
    pub open spec fn create_writes(self, victim: Option<FrameId>) -> Seq<WriteView> {
        match self.create_outcome(victim) {
            CreateOutcome::Created(f) => seq![
                page_write(self.next_page_id(), zeroes(PAGE_SIZE as nat)),
            ] + self.write_back(f),
            CreateOutcome::Full => seq![page_write(self.next_page_id(), zeroes(PAGE_SIZE as nat))],
            CreateOutcome::Overflow => Seq::empty(),
        }
    }

    /// Allocating a page id keeps the pool well formed.
    pub proof fn lemma_allocate_wf(self, detached: Option<FrameId>)
        requires
            self.wf(detached),
            self.last_allocated < u64::MAX,
        ensures
            self.allocate().wf(detached),
    {
        let after = self.allocate();
        assert forall|p: PageId| #[trigger] after.page_table.contains_key(p) implies {
            &&& after.page_table[p] < after.frames.len()
            &&& after.frames[after.page_table[p] as int].page_id == p
            &&& page_offset(p) is Some
            &&& p <= after.last_allocated
        } by {
            assert(self.page_table.contains_key(p));
        }
        assert forall|f: FrameId| #[trigger] after.holds_page(f) implies {
            &&& after.page_table.contains_key(after.frames[f as int].page_id)
            &&& after.page_table[after.frames[f as int].page_id] == f
        } by {
            assert(self.holds_page(f));
        }
        assert forall|f: FrameId|
            f < after.frames.len() && !(#[trigger] after.holds_page(f)) && detached != Some(
                f,
            ) implies after.free_list.contains(f) by {
            assert(!self.holds_page(f));
        }
        assert forall|f: FrameId| #[trigger]
            after.nodes.contains_key(f) <==> after.holds_page(f) by {
            assert(self.nodes.contains_key(f) <==> self.holds_page(f));
        }
    }

    /// Putting a page that is not resident into the detached frame makes
    /// the pool well formed again.
    pub proof fn lemma_install_wf(self, f: FrameId, page_id: PageId, data: Seq<u8>)
        requires
            self.wf(Some(f)),
            !self.page_table.contains_key(page_id),
            page_offset(page_id) is Some,
            page_id <= self.last_allocated,
            data.len() == PAGE_SIZE,
        ensures
            self.install(f, page_id, data).wf(None),
    {
        let after = self.install(f, page_id, data);
        assert(!self.holds_page(f));
        assert(!self.nodes.contains_key(f));
        assert(after.page_table.dom() =~= self.page_table.dom().insert(page_id));
        assert forall|i: int| 0 <= i < after.frames.len() implies (#[trigger] after.frames[i]).data.len()
            == PAGE_SIZE by {
            assert(self.frames[i].data.len() == PAGE_SIZE);
        }
        assert forall|i: int| 0 <= i < after.free_list.len() implies {
            &&& (#[trigger] after.free_list[i]) < after.frames.len()
            &&& after.frames[after.free_list[i] as int] == blank_frame()
        } by {
            assert(self.free_list[i] < self.frames.len());
            assert(self.free_list.contains(self.free_list[i]));
        }
        assert forall|p: PageId| #[trigger] after.page_table.contains_key(p) implies {
            &&& after.page_table[p] < after.frames.len()
            &&& after.frames[after.page_table[p] as int].page_id == p
            &&& page_offset(p) is Some
            &&& p <= after.last_allocated
        } by {
            if p != page_id {
                assert(self.page_table.contains_key(p));
                assert(self.holds_page(self.page_table[p]));
            }
        }
        assert forall|g: FrameId| #[trigger] after.holds_page(g) implies {
            &&& after.page_table.contains_key(after.frames[g as int].page_id)
            &&& after.page_table[after.frames[g as int].page_id] == g
        } by {
            if g != f {
                assert(self.holds_page(g));
            }
        }
        assert forall|g: FrameId|
            g < after.frames.len() && !(#[trigger] after.holds_page(g)) implies after.free_list.contains(
            g,
        ) by {
            assert(!self.holds_page(g));
        }
        assert forall|g: FrameId| #[trigger]
            after.nodes.contains_key(g) <==> after.holds_page(g) by {
            assert(self.nodes.contains_key(g) <==> self.holds_page(g));
        }
        assert forall|g: FrameId| #[trigger] after.nodes.contains_key(g) implies after.nodes[g] == (
        after.frames[g as int].pin_count == 0) by {
            if g != f {
                assert(self.nodes.contains_key(g));
            }
        }
    }

    /// Pinning a resident page once more keeps the pool well formed.
    pub proof fn lemma_pin_wf(self, f: FrameId)
        requires
            self.wf(None),
            self.holds_page(f),
            self.frames[f as int].pin_count < u16::MAX,
        ensures
            self.pin(f).wf(None),
    {
        let after = self.pin(f);
        self.lemma_frame_change_wf(after, f);
    }

    /// Taking one pin off a resident page keeps the pool well formed.
    pub proof fn lemma_unpin_wf(self, f: FrameId, is_dirty: bool)
        requires
            self.wf(None),
            self.holds_page(f),
            self.frames[f as int].pin_count > 0,
        ensures
            self.unpin(f, is_dirty).wf(None),
    {
        let after = self.unpin(f, is_dirty);
        assert(self.nodes.contains_key(f));
        assert(after.nodes =~= self.nodes.insert(f, after.frames[f as int].pin_count == 0));
        self.lemma_frame_change_wf(after, f);
    }

    /// A change to the bytes, the pin count and the dirty flag of one
    /// resident frame, with the replacer told whether the frame is still
    /// pinned, keeps the pool well formed.
    pub proof fn lemma_frame_change_wf(self, after: PoolView, f: FrameId)
        requires
            self.wf(None),
            self.holds_page(f),
            after.frames.len() == self.frames.len(),
            after.frames[f as int].page_id == self.frames[f as int].page_id,
            after.frames[f as int].data.len() == PAGE_SIZE,
            forall|g: int| 0 <= g < self.frames.len() && g != f ==> after.frames[g] == self.frames[g],
            after.page_table == self.page_table,
            after.free_list == self.free_list,
            after.last_allocated == self.last_allocated,
            after.nodes == self.nodes.insert(f, after.frames[f as int].pin_count == 0),
        ensures
            after.wf(None),
    {
        assert(self.nodes.contains_key(f));
        assert forall|i: int| 0 <= i < after.frames.len() implies (#[trigger] after.frames[i]).data.len()
            == PAGE_SIZE by {
            assert(self.frames[i].data.len() == PAGE_SIZE);
        }
        assert forall|i: int| 0 <= i < after.free_list.len() implies {
            &&& (#[trigger] after.free_list[i]) < after.frames.len()
            &&& after.frames[after.free_list[i] as int] == blank_frame()
        } by {
            assert(self.free_list[i] < self.frames.len());
            assert(self.frames[self.free_list[i] as int] == blank_frame());
        }
        assert forall|p: PageId| #[trigger] after.page_table.contains_key(p) implies {
            &&& after.page_table[p] < after.frames.len()
            &&& after.frames[after.page_table[p] as int].page_id == p
            &&& page_offset(p) is Some
            &&& p <= after.last_allocated
        } by {
            assert(self.page_table.contains_key(p));
        }
        assert forall|g: FrameId| #[trigger] after.holds_page(g) implies {
            &&& after.page_table.contains_key(after.frames[g as int].page_id)
            &&& after.page_table[after.frames[g as int].page_id] == g
        } by {
            assert(self.holds_page(g));
        }
        assert forall|g: FrameId|
            g < after.frames.len() && !(#[trigger] after.holds_page(g)) implies after.free_list.contains(
            g,
        ) by {
            assert(!self.holds_page(g));
        }
        assert forall|g: FrameId| #[trigger]
            after.nodes.contains_key(g) <==> after.holds_page(g) by {
            assert(self.nodes.contains_key(g) <==> self.holds_page(g));
        }
        assert forall|g: FrameId| #[trigger] after.nodes.contains_key(g) implies after.nodes[g] == (
        after.frames[g as int].pin_count == 0) by {
            if g != f {
                assert(self.nodes.contains_key(g));
            }
        }
    }

    /// Deleting a resident page that nobody pins keeps the pool well formed.
    pub proof fn lemma_delete_wf(self, f: FrameId)
        requires
            self.wf(None),
            self.holds_page(f),
        ensures
            self.delete(f).wf(None),
    {
        let after = self.delete(f);
        let page_id = self.frames[f as int].page_id;
        assert(self.page_table.contains_key(page_id));
        assert(after.page_table.dom() =~= self.page_table.dom().remove(page_id));
        assert(!self.free_list.contains(f)) by {
            if self.free_list.contains(f) {
                let i = choose|i: int| 0 <= i < self.free_list.len() && self.free_list[i] == f;
                assert(self.frames[self.free_list[i] as int] == blank_frame());
            }
        }
        assert(after.free_list.no_duplicates()) by {
            assert forall|i: int, j: int|
                0 <= i < after.free_list.len() && 0 <= j < after.free_list.len() && i
                    != j implies after.free_list[i] != after.free_list[j] by {
                if i < self.free_list.len() {
                    assert(self.free_list.contains(self.free_list[i]));
                }
                if j < self.free_list.len() {
                    assert(self.free_list.contains(self.free_list[j]));
                }
            }
        }
        assert forall|i: int| 0 <= i < after.frames.len() implies (#[trigger] after.frames[i]).data.len()
            == PAGE_SIZE by {
            assert(self.frames[i].data.len() == PAGE_SIZE);
        }
        assert forall|i: int| 0 <= i < after.free_list.len() implies {
            &&& (#[trigger] after.free_list[i]) < after.frames.len()
            &&& after.frames[after.free_list[i] as int] == blank_frame()
        } by {
            if i < self.free_list.len() {
                assert(self.free_list[i] < self.frames.len());
                assert(self.frames[self.free_list[i] as int] == blank_frame());
                assert(self.free_list.contains(self.free_list[i]));
            }
        }
        assert forall|p: PageId| #[trigger] after.page_table.contains_key(p) implies {
            &&& after.page_table[p] < after.frames.len()
            &&& after.frames[after.page_table[p] as int].page_id == p
            &&& page_offset(p) is Some
            &&& p <= after.last_allocated
        } by {
            assert(self.page_table.contains_key(p));
        }
        assert forall|g: FrameId| #[trigger] after.holds_page(g) implies {
            &&& after.page_table.contains_key(after.frames[g as int].page_id)
            &&& after.page_table[after.frames[g as int].page_id] == g
        } by {
            assert(self.holds_page(g));
            assert(self.page_table[self.frames[g as int].page_id] == g);
        }
        assert forall|g: FrameId|
            g < after.frames.len() && !(#[trigger] after.holds_page(g)) implies after.free_list.contains(
            g,
        ) by {
            if g == f {
                assert(after.free_list[self.free_list.len() as int] == f);
            } else {
                assert(!self.holds_page(g));
                let i = choose|i: int| 0 <= i < self.free_list.len() && self.free_list[i] == g;
                assert(after.free_list[i] == g);
            }
        }
        assert forall|g: FrameId| #[trigger]
            after.nodes.contains_key(g) <==> after.holds_page(g) by {
            assert(self.nodes.contains_key(g) <==> self.holds_page(g));
        }
        assert forall|g: FrameId| #[trigger] after.nodes.contains_key(g) implies after.nodes[g] == (
        after.frames[g as int].pin_count == 0) by {
            assert(self.nodes.contains_key(g));
        }
    }
}

impl PoolView {
    /// A fetch that goes well leaves the page in its frame, pinned, and the
    /// pool well formed: a resident page as it was, with one pin more, and
    /// another with the bytes that were read and one pin.
    pub proof fn lemma_fetched(self, victim: Option<FrameId>, page_id: PageId, raw: Seq<u8>)
        requires
            self.wf(None),
            self.offers(victim),
            self.page_table.contains_key(page_id) ==> self.frames[self.page_table[page_id] as int].pin_count
                < u16::MAX,
            fetched_frame(self.fetch_outcome(victim, page_id, raw)) is Some,
        ensures
            ({
                let f = fetched_frame(self.fetch_outcome(victim, page_id, raw)).unwrap();
                let after = self.after_fetch(victim, page_id, raw);
                &&& f < self.frames.len()
                &&& after.wf(None)
                &&& after.frames.len() == self.frames.len()
                &&& after.page_table.contains_key(page_id)
                &&& after.page_table[page_id] == f
                &&& after.holds_page(f)
                &&& after.frames[f as int].page_id == page_id
                &&& after.frames[f as int].pin_count > 0
                &&& after.frames[f as int].data.len() == PAGE_SIZE
                &&& after.last_allocated == self.last_allocated
                &&& self.fetch_outcome(victim, page_id, raw) is Hit ==> after.frames[f as int].data
                    == self.frames[f as int].data
            }),
    {
        let after = self.after_fetch(victim, page_id, raw);
        match self.fetch_outcome(victim, page_id, raw) {
            FetchOutcome::Hit(f) => {
                assert(self.holds_page(f));
                self.lemma_pin_wf(f);
            },
            FetchOutcome::Loaded(f, data) => {
                self.lemma_next_frame_is_unpinned(victim);
                self.lemma_claim_wf(victim);
                self.claim(f).lemma_install_wf(f, page_id, data);
                assert(page_offset(page_id) is Some);
            },
            _ => {},
        }
    }

    /// Taking out the frame for the next new page leaves the pool well
    /// formed but for that frame.
    pub proof fn lemma_claim_wf(self, victim: Option<FrameId>)
        requires
            self.wf(None),
            self.offers(victim),
            self.has_free_frame(),
        ensures
            self.claim(self.next_frame(victim).unwrap()).wf(self.next_frame(victim)),
            forall|p: PageId|
                self.claim(self.next_frame(victim).unwrap()).page_table.contains_key(p)
                    ==> self.page_table.contains_key(p),
    {
        self.lemma_next_frame_is_unpinned(victim);
        let f = self.next_frame(victim).unwrap();
        let after = self.claim(f);
        if self.free_list.len() > 0 {
            assert(self.free_list[0] == f);
            assert(!self.holds_page(f));
            assert(!self.page_table.contains_key(INVALID_PAGE_ID)) by {
                if self.page_table.contains_key(INVALID_PAGE_ID) {
                    assert(page_offset(INVALID_PAGE_ID) is Some);
                }
            }
            assert(after.page_table =~= self.page_table);
            assert(after.nodes =~= self.nodes);
            assert(after.frames =~= self.frames);
            assert forall|i: int| 0 <= i < after.free_list.len() implies {
                &&& (#[trigger] after.free_list[i]) < after.frames.len()
                &&& after.frames[after.free_list[i] as int] == blank_frame()
            } by {
                assert(after.free_list[i] == self.free_list[i + 1]);
            }
            assert(!after.free_list.contains(f)) by {
                if after.free_list.contains(f) {
                    let i = choose|i: int| 0 <= i < after.free_list.len() && after.free_list[i] == f;
                    assert(self.free_list[i + 1] == f);
                }
            }
            assert forall|g: FrameId|
                g < after.frames.len() && !(#[trigger] after.holds_page(g)) && Some(f) != Some(
                    g,
                ) implies after.free_list.contains(g) by {
                assert(!self.holds_page(g));
                assert(self.free_list.contains(g));
                let i = choose|i: int| 0 <= i < self.free_list.len() && self.free_list[i] == g;
                assert(after.free_list[i - 1] == g);
            }
            assert forall|g: FrameId| #[trigger] after.holds_page(g) implies {
                &&& after.page_table.contains_key(after.frames[g as int].page_id)
                &&& after.page_table[after.frames[g as int].page_id] == g
            } by {
                assert(self.holds_page(g));
            }
            assert(after.free_list.no_duplicates());
        } else {
            assert(self.nodes.contains_key(f));
            assert(self.holds_page(f));
            let page_id = self.frames[f as int].page_id;
            assert(self.page_table.contains_key(page_id));
            assert(after.page_table.dom() =~= self.page_table.dom().remove(page_id));
            assert forall|i: int| 0 <= i < after.frames.len() implies (#[trigger] after.frames[i]).data.len()
                == PAGE_SIZE by {
                assert(self.frames[i].data.len() == PAGE_SIZE);
            }
            assert forall|p: PageId| #[trigger] after.page_table.contains_key(p) implies {
                &&& after.page_table[p] < after.frames.len()
                &&& after.frames[after.page_table[p] as int].page_id == p
                &&& page_offset(p) is Some
                &&& p <= after.last_allocated
            } by {
                assert(self.page_table.contains_key(p));
            }
            assert forall|g: FrameId| #[trigger] after.holds_page(g) implies {
                &&& after.page_table.contains_key(after.frames[g as int].page_id)
                &&& after.page_table[after.frames[g as int].page_id] == g
            } by {
                assert(self.holds_page(g));
                assert(self.page_table[self.frames[g as int].page_id] == g);
                assert(self.page_table[self.frames[f as int].page_id] == f);
            }
            assert forall|g: FrameId|
                g < after.frames.len() && !(#[trigger] after.holds_page(g)) && Some(f) != Some(
                    g,
                ) implies after.free_list.contains(g) by {
                assert(!self.holds_page(g));
            }
            assert forall|g: FrameId| #[trigger]
                after.nodes.contains_key(g) <==> after.holds_page(g) by {
                assert(self.nodes.contains_key(g) <==> self.holds_page(g));
            }
            assert forall|g: FrameId| #[trigger] after.nodes.contains_key(g) implies after.nodes[g]
                == (after.frames[g as int].pin_count == 0) by {
                assert(self.nodes.contains_key(g));
            }
            assert forall|i: int| 0 <= i < after.free_list.len() implies {
                &&& (#[trigger] after.free_list[i]) < after.frames.len()
                &&& after.frames[after.free_list[i] as int] == blank_frame()
            } by {}
        }
    }

    /// The frame for the next new page is unused or holds a page that nobody
    /// pins.
    pub proof fn lemma_next_frame_is_unpinned(self, victim: Option<FrameId>)
        requires
            self.wf(None),
            self.offers(victim),
            self.has_free_frame(),
        ensures
            self.next_frame(victim) matches Some(f) && f < self.frames.len()
                && self.frames[f as int].pin_count == 0,
    {
        if self.free_list.len() > 0 {
            assert(self.free_list[0] < self.frames.len());
            assert(self.frames[self.free_list[0] as int] == blank_frame());
        } else {
            let v = victim.unwrap();
            assert(self.nodes.contains_key(v));
            assert(self.holds_page(v));
        }
    }

    /// A pinned page stays where it is, as it is, when a frame is taken out
    /// for another page.
    pub proof fn lemma_claim_keeps_pinned(self, victim: Option<FrameId>, g: FrameId)
        requires
            self.wf(None),
            self.offers(victim),
            self.has_free_frame(),
            g < self.frames.len(),
            self.frames[g as int].pin_count > 0,
        ensures
            ({
                let f = self.next_frame(victim).unwrap();
                let after = self.claim(f);
                &&& f != g
                &&& f < self.frames.len()
                &&& after.frames[g as int] == self.frames[g as int]
                &&& after.frames.len() == self.frames.len()
                &&& self.holds_page(g)
                &&& after.page_table.contains_key(self.frames[g as int].page_id)
                &&& after.page_table[self.frames[g as int].page_id] == g
            }),
    {
        self.lemma_next_frame_is_unpinned(victim);
        let f = self.next_frame(victim).unwrap();
        assert(self.holds_page(g)) by {
            if !self.holds_page(g) {
                assert(self.free_list.contains(g));
                let i = choose|i: int| 0 <= i < self.free_list.len() && self.free_list[i] == g;
                assert(self.frames[self.free_list[i] as int] == blank_frame());
            }
        }
        assert(self.page_table[self.frames[g as int].page_id] == g);
        if self.holds_page(f) {
            assert(self.page_table[self.frames[f as int].page_id] == f);
        } else {
            assert(!self.page_table.contains_key(self.frames[f as int].page_id)) by {
                if self.page_table.contains_key(self.frames[f as int].page_id) {
                    assert(page_offset(self.frames[f as int].page_id) is Some);
                }
            }
        }
    }

    /// Only frames that hold a page can be evicted, so no more frames are
    /// free or evictable than the pool has.
    pub proof fn lemma_free_frames_bounded(self)
        requires
            self.wf(None),
        ensures
            evictable_frames(self.nodes).finite(),
            evictable_frames(self.nodes).len() <= self.page_table.dom().len(),
            self.free_frame_count() <= self.frames.len(),
    {
        let to_frame = |p: PageId| self.page_table[p];
        let resident = self.page_table.dom().map(to_frame);
        vstd::set_lib::lemma_map_size_bound(self.page_table.dom(), resident, to_frame);
        assert forall|f: FrameId| evictable_frames(self.nodes).contains(f) implies resident.contains(
            f,
        ) by {
            assert(self.nodes.contains_key(f));
            assert(self.holds_page(f));
            assert(self.page_table.contains_key(self.frames[f as int].page_id));
            assert(to_frame(self.frames[f as int].page_id) == f);
        }
        vstd::set_lib::lemma_len_subset(evictable_frames(self.nodes), resident);
    }
}

impl PoolView {
    /// A frame is unpinned exactly if it is on the free list, or evictable
    /// in the replacer, or taken out to receive a page.
    pub proof fn lemma_unpinned_iff_free_or_evictable(self, detached: Option<FrameId>, f: FrameId)
        requires
            self.wf(detached),
            f < self.frames.len(),
        ensures
            self.frames[f as int].pin_count == 0 <==> (self.free_list.contains(f)
                || evictable_frames(self.nodes).contains(f) || detached == Some(f)),
    {
        if self.holds_page(f) {
            assert(self.nodes.contains_key(f));
            assert(!self.free_list.contains(f)) by {
                if self.free_list.contains(f) {
                    let i = choose|i: int| 0 <= i < self.free_list.len() && self.free_list[i] == f;
                    assert(self.frames[self.free_list[i] as int] == blank_frame());
                }
            }
        } else {
            assert(!self.nodes.contains_key(f));
            if detached != Some(f) {
                assert(self.free_list.contains(f));
                let i = choose|i: int| 0 <= i < self.free_list.len() && self.free_list[i] == f;
                assert(self.frames[self.free_list[i] as int] == blank_frame());
            }
        }
    }

    /// The page table tells the truth: the frame that it names for a page
    /// holds that page.
    pub proof fn lemma_page_table_names_frames(self, detached: Option<FrameId>, page_id: PageId)
        requires
            self.wf(detached),
            self.page_table.contains_key(page_id),
        ensures
            self.page_table[page_id] < self.frames.len(),
            self.frames[self.page_table[page_id] as int].page_id == page_id,
            page_id != INVALID_PAGE_ID,
            !self.free_list.contains(self.page_table[page_id]),
    {
        let f = self.page_table[page_id];
        assert(page_offset(page_id) is Some);
        if self.free_list.contains(f) {
            let i = choose|i: int| 0 <= i < self.free_list.len() && self.free_list[i] == f;
            assert(self.frames[self.free_list[i] as int] == blank_frame());
        }
    }

    /// A frame on the free list holds no page, is not pinned and not dirty.
    pub proof fn lemma_free_frames_are_blank(self, detached: Option<FrameId>, f: FrameId)
        requires
            self.wf(detached),
            self.free_list.contains(f),
        ensures
            f < self.frames.len(),
            self.frames[f as int].page_id == INVALID_PAGE_ID,
            self.frames[f as int].pin_count == 0,
            !self.frames[f as int].is_dirty,
            !self.nodes.contains_key(f),
    {
        let i = choose|i: int| 0 <= i < self.free_list.len() && self.free_list[i] == f;
        assert(self.frames[self.free_list[i] as int] == blank_frame());
        assert(!self.holds_page(f));
    }

    /// Every frame is either on the free list or in the page table.
    pub proof fn lemma_frames_are_free_or_resident(self)
        requires
            self.wf(None),
        ensures
            self.free_list.len() + self.page_table.dom().len() == self.frames.len(),
    {
    }

    /// When nobody holds a pin, every frame is free or evictable.
    pub proof fn lemma_unpinned_pool_is_free(self)
        requires
            self.wf(None),
            forall|f: int| 0 <= f < self.frames.len() ==> (#[trigger] self.frames[f]).pin_count == 0,
        ensures
            self.free_frame_count() == self.frames.len(),
    {
        let to_frame = |p: PageId| self.page_table[p];
        let resident = self.page_table.dom().map(to_frame);
        assert(vstd::relations::injective_on(to_frame, self.page_table.dom())) by {
            assert forall|p: PageId, q: PageId|
                self.page_table.dom().contains(p) && self.page_table.dom().contains(q)
                    && #[trigger] to_frame(p) == #[trigger] to_frame(q) implies p == q by {
                assert(self.page_table.contains_key(p));
                assert(self.page_table.contains_key(q));
            }
        }
        vstd::set_lib::lemma_map_size(self.page_table.dom(), resident, to_frame);
        assert(resident =~= evictable_frames(self.nodes)) by {
            assert forall|f: FrameId| resident.contains(f) implies evictable_frames(
                self.nodes,
            ).contains(f) by {
                let p = choose|p: PageId| self.page_table.dom().contains(p) && to_frame(p) == f;
                assert(self.page_table.contains_key(p));
                assert(self.holds_page(f));
                assert(self.nodes.contains_key(f));
                assert(self.frames[f as int].pin_count == 0);
            }
            assert forall|f: FrameId| evictable_frames(self.nodes).contains(
                f,
            ) implies resident.contains(f) by {
                assert(self.nodes.contains_key(f));
                assert(self.holds_page(f));
                assert(self.page_table.contains_key(self.frames[f as int].page_id));
                assert(to_frame(self.frames[f as int].page_id) == f);
            }
        }
    }

    /// Pin and unpin balance: a fetch followed by the release of its pin
    /// leaves every frame pinned as often as it was before.
    pub proof fn lemma_fetch_and_release_balance(
        self,
        victim: Option<FrameId>,
        page_id: PageId,
        raw: Seq<u8>,
        is_dirty: bool,
        g: FrameId,
    )
        requires
            self.wf(None),
            self.offers(victim),
            self.page_table.contains_key(page_id) ==> self.frames[self.page_table[page_id] as int].pin_count
                < u16::MAX,
            fetched_frame(self.fetch_outcome(victim, page_id, raw)) is Some,
            g < self.frames.len(),
        ensures
            ({
                let f = fetched_frame(self.fetch_outcome(victim, page_id, raw)).unwrap();
                let after = self.after_fetch(victim, page_id, raw).unpin(f, is_dirty);
                &&& after.wf(None)
                &&& after.frames[g as int].pin_count == self.frames[g as int].pin_count
            }),
    {
        self.lemma_fetched(victim, page_id, raw);
        let f = fetched_frame(self.fetch_outcome(victim, page_id, raw)).unwrap();
        let fetched = self.after_fetch(victim, page_id, raw);
        fetched.lemma_unpin_wf(f, is_dirty);
        match self.fetch_outcome(victim, page_id, raw) {
            FetchOutcome::Loaded(f, data) => {
                self.lemma_next_frame_is_unpinned(victim);
            },
            _ => {},
        }
    }

    /// Pin and unpin balance: the creation of a page followed by the release
    /// of its pin leaves every frame pinned as often as it was before.
    pub proof fn lemma_create_and_release_balance(
        self,
        victim: Option<FrameId>,
        is_dirty: bool,
        g: FrameId,
    )
        requires
            self.wf(None),
            self.offers(victim),
            self.create_outcome(victim) is Created,
            g < self.frames.len(),
        ensures
            ({
                let f = self.next_frame(victim).unwrap();
                let after = self.after_create(victim).unpin(f, is_dirty);
                &&& after.wf(None)
                &&& after.frames[g as int].pin_count == self.frames[g as int].pin_count
            }),
    {
        let f = self.next_frame(victim).unwrap();
        self.lemma_allocate_wf(None);
        self.allocate().lemma_next_frame_is_unpinned(victim);
        self.allocate().lemma_claim_wf(victim);
        assert(!self.allocate().claim(f).page_table.contains_key(self.next_page_id())) by {
            if self.allocate().claim(f).page_table.contains_key(self.next_page_id()) {
                assert(self.page_table.contains_key(self.next_page_id()));
            }
        }
        self.allocate().claim(f).lemma_install_wf(
            f,
            self.next_page_id(),
            zeroes(PAGE_SIZE as nat),
        );
        let created = self.after_create(victim);
        assert(created.holds_page(f)) by {
            assert(page_offset(self.next_page_id()) is Some);
        }
        created.lemma_unpin_wf(f, is_dirty);
    }

    /// Persistence across eviction: when a dirty page is evicted, the file
    /// is given exactly the bytes of the page, and a later fetch that reads
    /// those bytes back puts the same bytes into a frame. This holds of a
    /// page whose first byte is not the mark of a deallocated page.
    pub proof fn lemma_evicted_page_comes_back(
        self,
        f: FrameId,
        later: PoolView,
        victim: Option<FrameId>,
    )
        requires
            self.wf(None),
            self.holds_page(f),
            self.frames[f as int].is_dirty,
            self.frames[f as int].data[0] != crate::disk_manager::DELETED_FLAG,
            later.wf(None),
            later.offers(victim),
            later.has_free_frame(),
            later.last_allocated >= self.last_allocated,
            !later.page_table.contains_key(self.frames[f as int].page_id),
        ensures
            self.write_back(f) == seq![
                page_write(self.frames[f as int].page_id, self.frames[f as int].data),
            ],
            ({
                let page_id = self.frames[f as int].page_id;
                let data = self.frames[f as int].data;
                let f2 = later.next_frame(victim).unwrap();
                &&& later.fetch_outcome(victim, page_id, data) == FetchOutcome::Loaded(f2, data)
                &&& later.after_fetch(victim, page_id, data).frames[f2 as int].data == data
                &&& later.after_fetch(victim, page_id, data).frames[f2 as int].page_id == page_id
            }),
    {
        let page_id = self.frames[f as int].page_id;
        let data = self.frames[f as int].data;
        assert(self.page_table.contains_key(page_id));
        assert(data.len() == PAGE_SIZE);
        assert(data.subrange(0, PAGE_SIZE as int) =~= data);
        later.lemma_next_frame_is_unpinned(victim);
    }
}

} // verus!
