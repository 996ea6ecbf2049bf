use crate::error::Error;
use crate::frame::zeroes;
use crate::record_id::{decimal, decimal_string};
use crate::typedef::{PageId, PAGE_SIZE};
use bytes::Bytes;
use vstd::prelude::*;
use vstd::slice::slice_subrange;

verus! {

/// The buffer type of the `bytes` crate, in which a page that was read is
/// handed on. Nothing is known of a value but what `bytes_of` says it holds.
#[verifier::external_type_specification]
#[verifier::external_body]
pub struct ExBytes(bytes::Bytes);

/// The bytes that a buffer holds, in order.
pub uninterp spec fn bytes_of(buffer: Bytes) -> Seq<u8>;

/// Calls `Bytes::copy_from_slice` of the `bytes` crate, which makes a buffer
/// by copying a slice. Taken on trust: the buffer holds exactly the bytes
/// of `data`.
#[verifier::external_body]
pub(crate) fn bytes_from_slice(data: &[u8]) -> (buffer: Bytes)
    ensures
        bytes_of(buffer) == data@,
{
    Bytes::copy_from_slice(data)
}

/// Calls `as_ref` of the `bytes` crate on a buffer, which lends out the
/// bytes of the buffer as a slice. Taken on trust: the slice holds exactly
/// the bytes of the buffer.
#[verifier::external_body]
pub(crate) fn bytes_as_slice(buffer: &Bytes) -> (data: &[u8])
    ensures
        data@ == bytes_of(*buffer),
{
    buffer.as_ref()
}

/// The byte that marks a page of the file as deallocated.
pub const DELETED_FLAG: u8 = 1;

/// One write that the file has to take: `data` at `offset`, followed by a
/// sync of the file to the device if `sync` is set.
pub struct DiskWrite {
    pub offset: u64,
    pub data: Vec<u8>,
    pub sync: bool,
}

/// A write as a mathematical value.
pub struct WriteView {
    pub offset: u64,
    pub data: Seq<u8>,
    pub sync: bool,
}

impl DeepView for DiskWrite {
    type V = WriteView;

    open spec fn deep_view(&self) -> WriteView {
        WriteView { offset: self.offset, data: self.data@, sync: self.sync }
    }
}

/// Where the page `page_id` starts in the file, if that is within 64 bits.
pub open spec fn page_offset(page_id: PageId) -> Option<u64> {
    if page_id * PAGE_SIZE <= u64::MAX {
        Some((page_id * PAGE_SIZE) as u64)
    } else {
        None
    }
}

/// The write that stores `data` as the page `page_id`.
pub open spec fn page_write(page_id: PageId, data: Seq<u8>) -> WriteView {
    WriteView { offset: page_offset(page_id).unwrap(), data, sync: true }
}

/// The write that marks the page `page_id` as deallocated.
pub open spec fn tombstone_write(page_id: PageId) -> WriteView {
    WriteView { offset: page_offset(page_id).unwrap(), data: seq![DELETED_FLAG], sync: false }
}

/// What a read of a page makes of the bytes found in the file.
pub enum ReadOutcome {
    /// The page starts beyond what 64 bits can address.
    Overflow,
    /// The file ends before the page does.
    Short,
    /// The page was deallocated.
    Deleted,
    /// The page, with its bytes.
    Page(Seq<u8>),
}

/// What a read of the page `page_id` yields when `raw` is what the file
/// holds from the start of that page on, up to the length of a page, and
/// `last_allocated` is the last page that the file was given.
pub open spec fn read_outcome(last_allocated: PageId, page_id: PageId, raw: Seq<u8>) -> ReadOutcome {
    if page_offset(page_id) is None {
        ReadOutcome::Overflow
    } else if page_id > last_allocated || raw.len() == 0 {
        ReadOutcome::Short
    } else if raw[0] == DELETED_FLAG {
        ReadOutcome::Deleted
    } else if raw.len() < PAGE_SIZE {
        ReadOutcome::Short
    } else {
        ReadOutcome::Page(raw.subrange(0, PAGE_SIZE as int))
    }
}

/// Whether an allocation that finds the manager as `before` returns
/// `page_id` and leaves the manager as `after`.
pub open spec fn allocates(before: DiskManager, page_id: PageId, after: DiskManager) -> bool {
    &&& page_id == before.last_allocated() + 1
    &&& page_offset(page_id) is Some
    &&& after.last_allocated() == page_id
}

/// Plans the accesses to the one file that holds all pages. Page `p` lies at
/// the bytes from `p * PAGE_SIZE` on. The manager does no I/O itself: it
/// says which bytes go where, and what the bytes that came back mean.
#[derive(Debug)]
pub struct DiskManager {
    last_allocated_pid: PageId,
}

impl DiskManager {
    /// The page id that was handed out last; 0 if none was.
    pub closed spec fn last_allocated(&self) -> PageId {
        self.last_allocated_pid
    }

    /// A manager for an empty file, and the write that clears page 0.
    pub fn new() -> (r: (DiskManager, DiskWrite))
        ensures
            r.0.last_allocated() == 0,
            r.1.deep_view() == page_write(0, zeroes(PAGE_SIZE as nat)),
    {
        let disk_manager = DiskManager { last_allocated_pid: 0 };
        (disk_manager, DiskWrite { offset: 0, data: zero_page(), sync: true })
    }

    /// Hands out the next page id, with the write that clears the page.
    /// Ids grow by one and are never reused.
    pub fn allocate_page(&mut self) -> (r: Result<(PageId, DiskWrite), Error>)
        ensures
            final(self).last_allocated() >= old(self).last_allocated(),
            match r {
                Ok((page_id, write)) => {
                    &&& allocates(*old(self), page_id, *final(self))
                    &&& write.deep_view() == page_write(page_id, zeroes(PAGE_SIZE as nat))
                },
                Err(Error::ArithmeticOverflow) => {
                    &&& page_offset((old(self).last_allocated() + 1) as PageId) is None
                        || old(self).last_allocated() == u64::MAX
                    &&& final(self).last_allocated() == (if old(self).last_allocated()
                        == u64::MAX {
                        u64::MAX
                    } else {
                        (old(self).last_allocated() + 1) as PageId
                    })
                },
                Err(_) => false,
            },
    {
        if self.last_allocated_pid == u64::MAX {
            return Err(Error::ArithmeticOverflow);
        }
        self.last_allocated_pid = self.last_allocated_pid + 1;
        let page_id = self.last_allocated_pid;
        let data = zero_page();
        match self.write(&page_id, data.as_slice()) {
            Ok(write) => Ok((page_id, write)),
            Err(_) => Err(Error::ArithmeticOverflow),
        }
    }

    /// The write that marks a page as deallocated. The page keeps its place
    /// in the file, and its id is not handed out again.
    pub fn deallocate_page(&mut self, page_id: &PageId) -> (r: Result<DiskWrite, Error>)
        ensures
            final(self).last_allocated() == old(self).last_allocated(),
            match r {
                Ok(write) => page_offset(*page_id) is Some && write.deep_view() == tombstone_write(
                    *page_id,
                ),
                Err(Error::ArithmeticOverflow) => page_offset(*page_id) is None,
                Err(_) => false,
            },
    {
        let offset = Self::calculate_offset(page_id)?;
        let mut data: Vec<u8> = Vec::new();
        data.push(DELETED_FLAG);
        assert(data@ =~= seq![DELETED_FLAG]);
        Ok(DiskWrite { offset, data, sync: false })
    }

    /// Tells from the bytes found at the start of a page whether the page
    /// was deallocated.
    pub fn is_deleted(raw: &[u8]) -> (r: Result<bool, Error>)
        ensures
            match r {
                Ok(deleted) => raw@.len() > 0 && deleted == (raw@[0] == DELETED_FLAG),
                Err(Error::IO(s)) => raw@.len() == 0 && s@ == Seq::<char>::empty(),
                Err(_) => false,
            },
    {
        if raw.len() == 0 {
            return Err(Error::IO(String::new()));
        }
        Ok(raw[0] == DELETED_FLAG)
    }

    /// Makes a page of `raw`, the bytes that the file holds from the start
    /// of the page `page_id` on: `None` if the page was deallocated. The
    /// file ends with the page that was allocated last.
    pub fn read(&self, page_id: &PageId, raw: &[u8]) -> (r: Result<Option<Bytes>, Error>)
        ensures
            match r {
                Ok(Some(page)) => read_outcome(self.last_allocated(), *page_id, raw@)
                    == ReadOutcome::Page(bytes_of(page)),
                Ok(None) => read_outcome(self.last_allocated(), *page_id, raw@) == ReadOutcome::Deleted,
                Err(Error::ArithmeticOverflow) => read_outcome(self.last_allocated(), *page_id, raw@)
                    == ReadOutcome::Overflow,
                Err(Error::IO(s)) => read_outcome(self.last_allocated(), *page_id, raw@) == ReadOutcome::Short && s@
                    == decimal(*page_id as nat),
                Err(_) => false,
            },
    {
        let _offset: u64 = Self::calculate_offset(page_id)?;
        if *page_id > self.last_allocated_pid {
            return Err(Error::IO(decimal_string(*page_id)));
        }
        let deleted = match Self::is_deleted(raw) {
            Ok(deleted) => deleted,
            Err(_) => {
                return Err(Error::IO(decimal_string(*page_id)));
            },
        };
        if deleted {
            return Ok(None);
        }
        if raw.len() < PAGE_SIZE {
            return Err(Error::IO(decimal_string(*page_id)));
        }
        let page = bytes_from_slice(slice_subrange(raw, 0, PAGE_SIZE));
        Ok(Some(page))
    }

    /// The write that stores `data` at the start of the page `page_id`.
    pub fn write(&self, page_id: &PageId, data: &[u8]) -> (r: Result<DiskWrite, Error>)
        ensures
            match r {
                Ok(write) => {
                    &&& data@.len() <= PAGE_SIZE
                    &&& page_offset(*page_id) is Some
                    &&& write.deep_view() == page_write(*page_id, data@)
                },
                Err(Error::InvalidInput(s)) => data@.len() > PAGE_SIZE && s@
                    == "Page data must fit in a page."@,
                Err(Error::ArithmeticOverflow) => data@.len() <= PAGE_SIZE && page_offset(
                    *page_id,
                ) is None,
                Err(_) => false,
            },
    {
        if data.len() > PAGE_SIZE {
            return Err(Error::InvalidInput(String::from_str("Page data must fit in a page.")));
        }
        let offset = Self::calculate_offset(page_id)?;
        let mut copy: Vec<u8> = Vec::new();
        let mut i: usize = 0;
        while i < data.len()
            invariant
                i <= data@.len(),
                copy@ == data@.subrange(0, i as int),
            decreases data@.len() - i,
        {
            copy.push(data[i]);
            assert(copy@ =~= data@.subrange(0, i + 1));
            i = i + 1;
        }
        assert(copy@ =~= data@);
        Ok(DiskWrite { offset, data: copy, sync: true })
    }

    /// Where a page starts in the file.
    pub fn calculate_offset(page_id: &PageId) -> (r: Result<u64, Error>)
        ensures
            match r {
                Ok(offset) => page_offset(*page_id) == Some(offset),
                Err(Error::ArithmeticOverflow) => page_offset(*page_id) is None,
                Err(_) => false,
            },
    {
        match (*page_id).checked_mul(PAGE_SIZE as u64) {
            Some(value) => Ok(value),
            None => Err(Error::ArithmeticOverflow),
        }
    }
}

/// A page of zero bytes.
pub fn zero_page() -> (page: Vec<u8>)
    ensures
        page@ == zeroes(PAGE_SIZE as nat),
{
    let mut page: Vec<u8> = Vec::new();
    let mut i: usize = 0;
    while i < PAGE_SIZE
        invariant
            i <= PAGE_SIZE,
            page@ == zeroes(i as nat),
        decreases PAGE_SIZE - i,
    {
        page.push(0);
        assert(page@ =~= zeroes((i + 1) as nat));
        i = i + 1;
    }
    page
}

/// Ids grow: an allocation returns a larger id than every allocation
/// before it, whatever else the manager was asked in between.
pub proof fn lemma_ids_grow(
    first: DiskManager,
    after_first: DiskManager,
    second: DiskManager,
    after_second: DiskManager,
    first_id: PageId,
    second_id: PageId,
)
    requires
        allocates(first, first_id, after_first),
        after_first.last_allocated() <= second.last_allocated(),
        allocates(second, second_id, after_second),
    ensures
        first_id < second_id,
        first.last_allocated() < first_id,
{
}

} // verus!
