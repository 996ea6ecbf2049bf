use crate::typedef::{PageId, INVALID_PAGE_ID, PAGE_SIZE};
use vstd::prelude::*;

verus! {

/// One slot of the buffer pool: the bytes of a page and the bookkeeping that
/// the pool keeps about it.
pub struct PageFrame {
    page_id: PageId,
    is_dirty: bool,
    pin_cnt: u16,
    data: [u8; PAGE_SIZE],
}

/// A frame as a mathematical value.
pub struct FrameView {
    pub page_id: PageId,
    pub is_dirty: bool,
    pub pin_count: u16,
    pub data: Seq<u8>,
}

impl View for PageFrame {
    type V = FrameView;

    closed spec fn view(&self) -> FrameView {
        FrameView {
            page_id: self.page_id,
            is_dirty: self.is_dirty,
            pin_count: self.pin_cnt,
            data: self.data@,
        }
    }
}

/// A sequence of `len` zero bytes.
pub open spec fn zeroes(len: nat) -> Seq<u8> {
    Seq::new(len, |i: int| 0u8)
}

/// `base` with the bytes from `offset` on replaced by `patch`.
pub open spec fn overwrite(base: Seq<u8>, offset: int, patch: Seq<u8>) -> Seq<u8> {
    Seq::new(
        base.len(),
        |i: int|
            if offset <= i < offset + patch.len() {
                patch[i - offset]
            } else {
                base[i]
            },
    )
}

/// The bytes of every frame fill exactly one page.
pub broadcast proof fn lemma_frame_data_len(frame: PageFrame)
    ensures
        #[trigger] frame@.data.len() == PAGE_SIZE,
{
}

impl PageFrame {
    /// An unused frame: no page, no pin, clean, all bytes zero.
    pub fn new() -> (frame: PageFrame)
        ensures
            frame@ == (FrameView {
                page_id: INVALID_PAGE_ID,
                is_dirty: false,
                pin_count: 0,
                data: zeroes(PAGE_SIZE as nat),
            }),
    {
        let frame = PageFrame {
            page_id: INVALID_PAGE_ID,
            is_dirty: false,
            pin_cnt: 0,
            data: [0u8; PAGE_SIZE],
        };
        assert(frame@.data =~= zeroes(PAGE_SIZE as nat));
        frame
    }

    pub fn page_id(&self) -> (page_id: PageId)
        ensures
            page_id == self@.page_id,
    {
        self.page_id
    }

    pub fn is_dirty(&self) -> (dirty: bool)
        ensures
            dirty == self@.is_dirty,
    {
        self.is_dirty
    }

    pub fn pin_count(&self) -> (count: u16)
        ensures
            count == self@.pin_count,
    {
        self.pin_cnt
    }

    pub fn data(&self) -> (data: &[u8])
        ensures
            data@ == self@.data,
            data@.len() == PAGE_SIZE,
    {
        self.data.as_slice()
    }

    pub fn data_mut(&mut self) -> (data: &mut [u8])
        ensures
            data@ == old(self)@.data,
            final(self)@ == (FrameView { data: final(data)@, ..old(self)@ }),
    {
        &mut self.data
    }

    /// The byte at `offset`.
    pub fn byte(&self, offset: usize) -> (b: u8)
        requires
            offset < PAGE_SIZE,
        ensures
            b == self@.data[offset as int],
    {
        self.data[offset]
    }

    pub fn set_page_id(&mut self, page_id: PageId)
        ensures
            final(self)@ == (FrameView { page_id, ..old(self)@ }),
    {
        self.page_id = page_id;
    }

    pub fn set_dirty(&mut self, dirty: bool)
        ensures
            final(self)@ == (FrameView { is_dirty: dirty, ..old(self)@ }),
    {
        self.is_dirty = dirty;
    }

    pub fn set_pin_count(&mut self, pin_cnt: u16)
        ensures
            final(self)@ == (FrameView { pin_count: pin_cnt, ..old(self)@ }),
    {
        self.pin_cnt = pin_cnt;
    }

    pub fn increment_pin_count(&mut self)
        requires
            old(self)@.pin_count < u16::MAX,
        ensures
            final(self)@ == (FrameView {
                pin_count: (old(self)@.pin_count + 1) as u16,
                ..old(self)@
            }),
    {
        self.pin_cnt = self.pin_cnt + 1;
    }

    pub fn decrement_pin_count(&mut self)
        requires
            old(self)@.pin_count != 0,
        ensures
            final(self)@ == (FrameView {
                pin_count: (old(self)@.pin_count - 1) as u16,
                ..old(self)@
            }),
    {
        self.pin_cnt = self.pin_cnt - 1;
    }

    /// Returns the frame to its unused state.
    pub fn reset(&mut self)
        ensures
            final(self)@ == (FrameView {
                page_id: INVALID_PAGE_ID,
                is_dirty: false,
                pin_count: 0,
                data: zeroes(PAGE_SIZE as nat),
            }),
    {
        self.page_id = INVALID_PAGE_ID;
        self.pin_cnt = 0;
        self.is_dirty = false;
        let mut i: usize = 0;
        while i < PAGE_SIZE
            invariant
                i <= PAGE_SIZE,
                self.page_id == INVALID_PAGE_ID,
                self.pin_cnt == 0,
                !self.is_dirty,
                forall|j: int| 0 <= j < i ==> self.data@[j] == 0u8,
            decreases PAGE_SIZE - i,
        {
            self.data[i] = 0;
            i = i + 1;
        }
        assert(self@.data =~= zeroes(PAGE_SIZE as nat));
    }

    /// Copies `data` into the frame, starting at `offset`.
    pub fn write(&mut self, offset: usize, data: &[u8])
        requires
            offset + data@.len() <= PAGE_SIZE,
        ensures
            final(self)@ == (FrameView {
                data: overwrite(old(self)@.data, offset as int, data@),
                ..old(self)@
            }),
    {
        let n = data.len();
        let mut i: usize = 0;
        while i < n
            invariant
                i <= n,
                n == data@.len(),
                offset + n <= PAGE_SIZE,
                self.page_id == old(self).page_id,
                self.pin_cnt == old(self).pin_cnt,
                self.is_dirty == old(self).is_dirty,
                forall|j: int|
                    0 <= j < PAGE_SIZE ==> self.data@[j] == (if offset <= j < offset + i {
                        data@[j - offset]
                    } else {
                        old(self).data@[j]
                    }),
            decreases n - i,
        {
            self.data[offset + i] = data[i];
            i = i + 1;
        }
        assert(self@.data =~= overwrite(old(self)@.data, offset as int, data@));
    }
}

} // verus!
