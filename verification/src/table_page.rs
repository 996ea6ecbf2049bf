use crate::codec::{push_u16, push_u64, read_u16, read_u64, u16_at, u16_bytes, u64_at, u64_bytes};
use crate::error::Error;
use crate::frame::{lemma_frame_data_len, overwrite, zeroes, FrameView, PageFrame};
use crate::record_id::RecordId;
use crate::tuple::{Tuple, TupleRef};
use crate::typedef::{PageId, PAGE_SIZE};
use vstd::prelude::*;
use vstd::slice::slice_subrange;

verus! {

broadcast use lemma_frame_data_len;

/// Bytes that the header takes at the start of a table page.
pub const TABLE_PAGE_HEADER_SIZE: usize = 16;

/// Bytes that one slot takes in the slot array.
pub const TUPLE_INFO_SIZE: usize = 6;

/// Bookkeeping stored beside each tuple in its slot.
#[derive(Clone, Copy, Debug, PartialEq, Eq, Structural)]
pub struct TupleMetadata {
    pub is_deleted: u8,
}

impl TupleMetadata {
    pub open spec fn spec_is_deleted(&self) -> bool {
        self.is_deleted != 0
    }

    pub fn new(is_deleted: bool) -> (meta: TupleMetadata)
        ensures
            meta.is_deleted == (if is_deleted { 1u8 } else { 0u8 }),
            meta.is_deleted() == is_deleted,
    {
        TupleMetadata { is_deleted: if is_deleted { 1 } else { 0 } }
    }

    #[verifier::when_used_as_spec(spec_is_deleted)]
    pub fn is_deleted(&self) -> (deleted: bool)
        ensures
            deleted == self.spec_is_deleted(),
    {
        self.is_deleted != 0
    }

    pub fn set_deleted(&mut self, deleted: bool)
        ensures
            final(self).is_deleted == (if deleted { 1u8 } else { 0u8 }),
            final(self).is_deleted() == deleted,
    {
        self.is_deleted = if deleted { 1 } else { 0 };
    }
}

/// The fixed fields at the start of a table page.
#[derive(Clone, Copy, Debug, PartialEq, Eq, Structural)]
pub struct TablePageHeader {
    pub next_page_id: PageId,
    pub tuple_cnt: u16,
    pub deleted_tuple_cnt: u16,
}

/// One entry of the slot array: where a tuple lies and how long it is.
#[derive(Clone, Copy, Debug, PartialEq, Eq, Structural)]
pub struct TupleInfo {
    pub offset: u16,
    pub size_bytes: u16,
    pub metadata: TupleMetadata,
}

/// Where slot `i` starts in the page.
pub open spec fn slot_start(i: int) -> int {
    TABLE_PAGE_HEADER_SIZE + TUPLE_INFO_SIZE * i
}

/// The header that the bytes of a page hold.
pub open spec fn header_of(data: Seq<u8>) -> TablePageHeader {
    TablePageHeader {
        next_page_id: u64_at(data, 0),
        tuple_cnt: u16_at(data, 8),
        deleted_tuple_cnt: u16_at(data, 10),
    }
}

/// The bytes that store a header.
pub open spec fn header_bytes(header: TablePageHeader) -> Seq<u8> {
    u64_bytes(header.next_page_id) + u16_bytes(header.tuple_cnt) + u16_bytes(
        header.deleted_tuple_cnt,
    ) + zeroes(4)
}

/// Slot `i` as the bytes of a page hold it.
pub open spec fn slot_of(data: Seq<u8>, i: int) -> TupleInfo {
    TupleInfo {
        offset: u16_at(data, slot_start(i)),
        size_bytes: u16_at(data, slot_start(i) + 2),
        metadata: TupleMetadata { is_deleted: data[slot_start(i) + 4] },
    }
}

/// The bytes that store a slot.
pub open spec fn slot_bytes(slot: TupleInfo) -> Seq<u8> {
    u16_bytes(slot.offset) + u16_bytes(slot.size_bytes) + seq![slot.metadata.is_deleted, 0u8]
}

/// Number of slots that the page claims to hold.
pub open spec fn tuple_count_of(data: Seq<u8>) -> int {
    header_of(data).tuple_cnt as int
}

/// Whether the whole slot array lies inside the page.
pub open spec fn slots_fit(data: Seq<u8>) -> bool {
    slot_start(tuple_count_of(data)) <= PAGE_SIZE
}

/// Whether slot `i` and the bytes it points at lie inside the page.
pub open spec fn readable(data: Seq<u8>, i: int) -> bool {
    &&& slots_fit(data)
    &&& slot_of(data, i).offset + slot_of(data, i).size_bytes <= PAGE_SIZE
}

/// The bytes of the tuple in slot `i`.
pub open spec fn tuple_bytes(data: Seq<u8>, i: int) -> Seq<u8> {
    data.subrange(
        slot_of(data, i).offset as int,
        slot_of(data, i).offset + slot_of(data, i).size_bytes,
    )
}

/// Where the tuple heap starts: at the tuple that was inserted last, or at
/// the end of an empty page.
pub open spec fn heap_start(data: Seq<u8>) -> int {
    if tuple_count_of(data) == 0 {
        PAGE_SIZE as int
    } else {
        slot_of(data, tuple_count_of(data) - 1).offset as int
    }
}

/// Where the tuple of slot `i` ends.
pub open spec fn tuple_end(data: Seq<u8>, i: int) -> int {
    slot_of(data, i).offset + slot_of(data, i).size_bytes
}

/// Whether the tuple of slot `i` ends at or before the tuple that was
/// inserted before it, or before the end of the page if it was the first.
pub open spec fn slot_in_order(data: Seq<u8>, i: int) -> bool {
    tuple_end(data, i) <= (if i == 0 {
        PAGE_SIZE as int
    } else {
        slot_of(data, i - 1).offset as int
    })
}

/// The layout rule of a table page: the slot array ends before the tuple heap
/// starts, and each tuple lies below the one inserted before it.
pub open spec fn page_wf(data: Seq<u8>) -> bool {
    &&& data.len() == PAGE_SIZE
    &&& slot_start(tuple_count_of(data)) <= heap_start(data)
    &&& forall|i: int| 0 <= i < tuple_count_of(data) ==> #[trigger] slot_in_order(data, i)
}

/// Whether `rid` names a slot of the page `page_id` whose bytes are `data`.
pub open spec fn names_slot(data: Seq<u8>, page_id: PageId, rid: RecordId) -> bool {
    rid.page_id() == page_id && rid.slot_id() < tuple_count_of(data)
}

/// What a lookup of `rid` finds in the page: metadata and bytes of the tuple,
/// if `rid` names a slot that can be read.
pub open spec fn lookup(data: Seq<u8>, page_id: PageId, rid: RecordId) -> Option<
    (TupleMetadata, Seq<u8>),
> {
    if names_slot(data, page_id, rid) && readable(data, rid.slot_id() as int) {
        Some((slot_of(data, rid.slot_id() as int).metadata, tuple_bytes(data, rid.slot_id() as int)))
    } else {
        None
    }
}

/// Whether `r` is what a lookup of `rid` returns on the page `page_id`
/// with the bytes `data`.
pub open spec fn lookup_returns(
    data: Seq<u8>,
    page_id: PageId,
    rid: RecordId,
    r: Result<(TupleMetadata, Tuple), Error>,
) -> bool {
    match r {
        Ok((meta, tuple)) => lookup(data, page_id, rid) == Some((meta, tuple@)),
        Err(Error::InvalidInput(s)) => !names_slot(data, page_id, rid) && s@
            == rid.spec_to_string(),
        Err(Error::OutOfBounds) => names_slot(data, page_id, rid) && !readable(
            data,
            rid.slot_id() as int,
        ),
        Err(_) => false,
    }
}

/// Where a new tuple of `len` bytes goes, if the page has room for it and for
/// its slot.
pub open spec fn insert_offset(data: Seq<u8>, len: int) -> Option<int> {
    if tuple_count_of(data) > 0 && !slots_fit(data) {
        None
    } else if heap_start(data) > PAGE_SIZE || slot_start(tuple_count_of(data) + 1) > heap_start(
        data,
    ) - len {
        None
    } else {
        Some(heap_start(data) - len)
    }
}

/// The page after a tuple with its slot was added at `offset`.
pub open spec fn with_tuple(data: Seq<u8>, offset: int, meta: TupleMetadata, tuple: Seq<u8>) -> Seq<
    u8,
> {
    let slot = TupleInfo { offset: offset as u16, size_bytes: tuple.len() as u16, metadata: meta };
    overwrite(
        overwrite(
            overwrite(data, offset, tuple),
            slot_start(tuple_count_of(data)),
            slot_bytes(slot),
        ),
        8,
        u16_bytes((tuple_count_of(data) + 1) as u16),
    )
}

/// The page after the metadata of slot `i` was replaced.
pub open spec fn with_metadata(data: Seq<u8>, i: int, meta: TupleMetadata) -> Seq<u8> {
    overwrite(data, slot_start(i) + 4, seq![meta.is_deleted, 0u8])
}

/// On a page with a valid layout a later tuple ends at or before an earlier
/// one, and below where that one starts.
pub proof fn lemma_offsets_descend(data: Seq<u8>, i: int, j: int)
    requires
        page_wf(data),
        0 <= i <= j < tuple_count_of(data),
    ensures
        tuple_end(data, j) <= tuple_end(data, i),
        i < j ==> tuple_end(data, j) <= slot_of(data, i).offset,
    decreases j - i,
{
    if i < j {
        lemma_offsets_descend(data, i, j - 1);
        assert(slot_in_order(data, j));
    }
}

/// On a page with a valid layout no slot overlaps a tuple: the slot array
/// ends at or before the offset of every tuple, and every tuple ends inside
/// the page.
pub proof fn lemma_slots_below_tuples(data: Seq<u8>, i: int)
    requires
        page_wf(data),
        0 <= i < tuple_count_of(data),
    ensures
        slot_start(tuple_count_of(data)) <= slot_of(data, i).offset,
        tuple_end(data, i) <= PAGE_SIZE,
        readable(data, i),
{
    lemma_offsets_descend(data, i, tuple_count_of(data) - 1);
    lemma_offsets_descend(data, 0, i);
    assert(slot_in_order(data, 0));
}

/// A page whose header was just written is empty and has a valid layout, and
/// takes a first tuple exactly if the tuple and one slot fit beside the header.
pub proof fn lemma_fresh_page(data: Seq<u8>, next_page_id: PageId, len: int)
    requires
        data.len() == PAGE_SIZE,
        0 <= len,
    ensures
        ({
            let fresh = overwrite(
                data,
                0,
                header_bytes(TablePageHeader { next_page_id, tuple_cnt: 0, deleted_tuple_cnt: 0 }),
            );
            &&& header_of(fresh) == (TablePageHeader {
                next_page_id,
                tuple_cnt: 0,
                deleted_tuple_cnt: 0,
            })
            &&& page_wf(fresh)
            &&& insert_offset(fresh, len) == (if len <= PAGE_SIZE - TABLE_PAGE_HEADER_SIZE
                - TUPLE_INFO_SIZE {
                Some(PAGE_SIZE - len)
            } else {
                None
            })
        }),
{
    let header = TablePageHeader { next_page_id, tuple_cnt: 0, deleted_tuple_cnt: 0 };
    let bytes = header_bytes(header);
    let fresh = overwrite(data, 0, bytes);
    crate::codec::lemma_u64_round_trip(next_page_id);
    crate::codec::lemma_u16_round_trip(0);
    assert(bytes.len() == 16);
    assert(fresh.subrange(0, 16) =~= bytes);
    assert(bytes.subrange(0, 8) =~= u64_bytes(next_page_id));
    assert(bytes.subrange(8, 10) =~= u16_bytes(0));
    assert(bytes.subrange(10, 12) =~= u16_bytes(0));
    crate::codec::lemma_u64_at_subrange(fresh, 0, 16, 0);
    crate::codec::lemma_u64_at_subrange(bytes, 0, 8, 0);
    crate::codec::lemma_u16_at_subrange(fresh, 0, 16, 8);
    crate::codec::lemma_u16_at_subrange(bytes, 8, 10, 0);
    crate::codec::lemma_u16_at_subrange(fresh, 0, 16, 10);
    crate::codec::lemma_u16_at_subrange(bytes, 10, 12, 0);
}

/// Round trip: a tuple that was inserted is found again under the record id
/// that the insertion returned, with the metadata it was inserted with.
pub proof fn lemma_insert_then_lookup(
    data: Seq<u8>,
    page_id: PageId,
    meta: TupleMetadata,
    tuple: Seq<u8>,
    rid: RecordId,
)
    requires
        data.len() == PAGE_SIZE,
        insert_offset(data, tuple.len() as int) is Some,
        rid.page_id() == page_id,
        rid.slot_id() == tuple_count_of(data),
    ensures
        ({
            let after = with_tuple(
                data,
                insert_offset(data, tuple.len() as int).unwrap(),
                meta,
                tuple,
            );
            &&& after.len() == PAGE_SIZE
            &&& tuple_count_of(after) == tuple_count_of(data) + 1
            &&& header_of(after).next_page_id == header_of(data).next_page_id
            &&& header_of(after).deleted_tuple_cnt == header_of(data).deleted_tuple_cnt
            &&& lookup(after, page_id, rid) == Some((meta, tuple))
        }),
{
    let offset = insert_offset(data, tuple.len() as int).unwrap();
    let count = tuple_count_of(data);
    let slot = TupleInfo { offset: offset as u16, size_bytes: tuple.len() as u16, metadata: meta };
    let after = with_tuple(data, offset, meta, tuple);
    assert(slot_of(after, count) == slot);
    assert(tuple_bytes(after, count) =~= tuple);
}

/// An insertion into a page with a valid layout leaves the layout valid and
/// every earlier slot and tuple as it was.
pub proof fn lemma_insert_keeps_earlier(
    data: Seq<u8>,
    meta: TupleMetadata,
    tuple: Seq<u8>,
    i: int,
)
    requires
        page_wf(data),
        insert_offset(data, tuple.len() as int) is Some,
        0 <= i < tuple_count_of(data),
    ensures
        ({
            let after = with_tuple(
                data,
                insert_offset(data, tuple.len() as int).unwrap(),
                meta,
                tuple,
            );
            &&& slot_of(after, i) == slot_of(data, i)
            &&& tuple_bytes(after, i) == tuple_bytes(data, i)
            &&& readable(after, i)
        }),
{
    let offset = insert_offset(data, tuple.len() as int).unwrap();
    let after = with_tuple(data, offset, meta, tuple);
    lemma_slots_below_tuples(data, i);
    lemma_offsets_descend(data, i, tuple_count_of(data) - 1);
    assert(slot_of(after, i) == slot_of(data, i));
    assert(tuple_bytes(after, i) =~= tuple_bytes(data, i));
}

/// An insertion into a page with a valid layout leaves the layout valid.
pub proof fn lemma_insert_keeps_layout(data: Seq<u8>, meta: TupleMetadata, tuple: Seq<u8>)
    requires
        page_wf(data),
        insert_offset(data, tuple.len() as int) is Some,
    ensures
        page_wf(with_tuple(data, insert_offset(data, tuple.len() as int).unwrap(), meta, tuple)),
{
    let offset = insert_offset(data, tuple.len() as int).unwrap();
    let count = tuple_count_of(data);
    let after = with_tuple(data, offset, meta, tuple);
    let slot = TupleInfo { offset: offset as u16, size_bytes: tuple.len() as u16, metadata: meta };
    assert(slot_of(after, count) == slot);
    assert forall|i: int| 0 <= i < tuple_count_of(after) implies #[trigger] slot_in_order(
        after,
        i,
    ) by {
        if i < count {
            lemma_insert_keeps_earlier(data, meta, tuple, i);
            assert(slot_in_order(data, i));
        }
        if i > 0 {
            lemma_insert_keeps_earlier(data, meta, tuple, i - 1);
        }
    }
}

/// A slot that was written is read back as it was written, and the slots
/// beside it stay as they were.
pub proof fn lemma_slot_round_trip(data: Seq<u8>, i: int, slot: TupleInfo, j: int)
    requires
        data.len() == PAGE_SIZE,
        0 <= i,
        slot_start(i + 1) <= PAGE_SIZE,
        0 <= j,
        slot_start(j + 1) <= PAGE_SIZE,
    ensures
        slot_of(overwrite(data, slot_start(i), slot_bytes(slot)), j) == (if j == i {
            slot
        } else {
            slot_of(data, j)
        }),
        header_of(overwrite(data, slot_start(i), slot_bytes(slot))) == header_of(data),
{
}

/// A header field that was written is read back as it was written, and the
/// other fields stay as they were.
pub proof fn lemma_header_round_trip(data: Seq<u8>, next_page_id: PageId, count: u16)
    requires
        data.len() == PAGE_SIZE,
    ensures
        header_of(overwrite(data, 0, u64_bytes(next_page_id))) == (TablePageHeader {
            next_page_id,
            ..header_of(data)
        }),
        header_of(overwrite(data, 8, u16_bytes(count))) == (TablePageHeader {
            tuple_cnt: count,
            ..header_of(data)
        }),
        header_of(overwrite(data, 10, u16_bytes(count))) == (TablePageHeader {
            deleted_tuple_cnt: count,
            ..header_of(data)
        }),
{
    crate::codec::lemma_u64_round_trip(next_page_id);
    crate::codec::lemma_u16_round_trip(count);
    let a = overwrite(data, 0, u64_bytes(next_page_id));
    assert(a.subrange(0, 8) =~= u64_bytes(next_page_id));
    crate::codec::lemma_u64_at_subrange(a, 0, 8, 0);
}

/// Replacing the metadata of a slot changes that metadata and nothing else
/// that a lookup sees; doing it twice is doing it once.
pub proof fn lemma_metadata_update(data: Seq<u8>, i: int, meta: TupleMetadata, j: int)
    requires
        page_wf(data),
        slots_fit(data),
        0 <= i < tuple_count_of(data),
        0 <= j < tuple_count_of(data),
    ensures
        ({
            let after = with_metadata(data, i, meta);
            &&& header_of(after) == header_of(data)
            &&& page_wf(after)
            &&& slot_of(after, j) == (if j == i {
                TupleInfo { metadata: meta, ..slot_of(data, j) }
            } else {
                slot_of(data, j)
            })
            &&& tuple_bytes(after, j) == tuple_bytes(data, j)
            &&& with_metadata(after, i, meta) == after
        }),
{
    let after = with_metadata(data, i, meta);
    assert(header_of(after) == header_of(data));
    assert forall|k: int| 0 <= k < tuple_count_of(data) implies slot_of(after, k) == (if k == i {
        TupleInfo { metadata: meta, ..slot_of(data, k) }
    } else {
        slot_of(data, k)
    }) by {}
    lemma_slots_below_tuples(data, j);
    assert(tuple_bytes(after, j) =~= tuple_bytes(data, j));
    assert(with_metadata(after, i, meta) =~= after);
    assert forall|k: int| 0 <= k < tuple_count_of(after) implies #[trigger] slot_in_order(
        after,
        k,
    ) by {
        assert(slot_in_order(data, k));
    }
}

/// A read-only view of a frame as a table page.
pub struct TablePageRef<'a> {
    page_frame: &'a PageFrame,
}

impl<'a> TablePageRef<'a> {
    /// The frame under the view.
    pub closed spec fn frame(&self) -> FrameView {
        self.page_frame@
    }

    /// The bytes of the page.
    pub open spec fn bytes(&self) -> Seq<u8> {
        self.frame().data
    }

    pub fn new(page_frame: &'a PageFrame) -> (page: TablePageRef<'a>)
        ensures
            page.frame() == page_frame@,
    {
        TablePageRef { page_frame }
    }

    pub fn page_id(&self) -> (page_id: PageId)
        ensures
            page_id == self.frame().page_id,
    {
        self.page_frame.page_id()
    }

    pub fn next_page_id(&self) -> (next: PageId)
        ensures
            next == header_of(self.bytes()).next_page_id,
    {
        read_u64(self.page_frame.data(), 0)
    }

    pub fn tuple_count(&self) -> (count: u16)
        ensures
            count == header_of(self.bytes()).tuple_cnt,
    {
        read_u16(self.page_frame.data(), 8)
    }

    pub fn deleted_tuple_count(&self) -> (count: u16)
        ensures
            count == header_of(self.bytes()).deleted_tuple_cnt,
    {
        read_u16(self.page_frame.data(), 10)
    }

    pub fn header(&self) -> (header: TablePageHeader)
        ensures
            header == header_of(self.bytes()),
    {
        TablePageHeader {
            next_page_id: self.next_page_id(),
            tuple_cnt: self.tuple_count(),
            deleted_tuple_cnt: self.deleted_tuple_count(),
        }
    }

    /// Slot `i` of the slot array.
    pub fn slot(&self, i: u16) -> (slot: TupleInfo)
        requires
            slot_start(i + 1) <= PAGE_SIZE,
        ensures
            slot == slot_of(self.bytes(), i as int),
    {
        let data = self.page_frame.data();
        let start: usize = TABLE_PAGE_HEADER_SIZE + TUPLE_INFO_SIZE * (i as usize);
        TupleInfo {
            offset: read_u16(data, start),
            size_bytes: read_u16(data, start + 2),
            metadata: TupleMetadata { is_deleted: data[start + 4] },
        }
    }

    /// The slots of the page, in order.
    pub fn slot_array(&self) -> (slots: Vec<TupleInfo>)
        requires
            slots_fit(self.bytes()),
        ensures
            slots@.len() == tuple_count_of(self.bytes()),
            forall|i: int| 0 <= i < slots@.len() ==> slots@[i] == slot_of(self.bytes(), i),
    {
        let count = self.tuple_count();
        let mut slots: Vec<TupleInfo> = Vec::new();
        let mut i: u16 = 0;
        while i < count
            invariant
                i <= count,
                count == tuple_count_of(self.bytes()),
                slots_fit(self.bytes()),
                slots@.len() == i,
                forall|j: int| 0 <= j < i ==> slots@[j] == slot_of(self.bytes(), j),
            decreases count - i,
        {
            slots.push(self.slot(i));
            i = i + 1;
        }
        slots
    }

    /// Tells whether `rid` names a slot of this page.
    pub fn validate_record_id(&self, rid: &RecordId) -> (r: Result<(), Error>)
        ensures
            match r {
                Ok(_) => names_slot(self.bytes(), self.frame().page_id, *rid),
                Err(Error::InvalidInput(s)) => !names_slot(self.bytes(), self.frame().page_id, *rid)
                    && s@ == rid.spec_to_string(),
                Err(_) => false,
            },
    {
        if rid.page_id() != self.page_id() || rid.slot_id() >= self.tuple_count() {
            Err(Error::InvalidInput(rid.to_string()))
        } else {
            Ok(())
        }
    }

    /// Finds the slot that `rid` names, if it and its tuple lie inside the page.
    fn locate(&self, rid: &RecordId) -> (r: Result<TupleInfo, Error>)
        ensures
            match r {
                Ok(slot) => lookup(self.bytes(), self.frame().page_id, *rid) is Some && slot
                    == slot_of(self.bytes(), rid.slot_id() as int),
                Err(Error::InvalidInput(s)) => !names_slot(self.bytes(), self.frame().page_id, *rid)
                    && s@ == rid.spec_to_string(),
                Err(Error::OutOfBounds) => names_slot(self.bytes(), self.frame().page_id, *rid)
                    && !readable(self.bytes(), rid.slot_id() as int),
                Err(_) => false,
            },
    {
        match self.validate_record_id(rid) {
            Ok(_) => {},
            Err(e) => {
                return Err(e);
            },
        }
        let count = self.tuple_count();
        if TABLE_PAGE_HEADER_SIZE + TUPLE_INFO_SIZE * (count as usize) > PAGE_SIZE {
            return Err(Error::OutOfBounds);
        }
        let slot = self.slot(rid.slot_id());
        if slot.offset as usize + slot.size_bytes as usize > PAGE_SIZE {
            return Err(Error::OutOfBounds);
        }
        Ok(slot)
    }

    /// Copies the tuple that `rid` names out of the page.
    pub fn get_tuple(&self, rid: &RecordId) -> (r: Result<(TupleMetadata, Tuple), Error>)
        ensures
            lookup_returns(self.bytes(), self.frame().page_id, *rid, r),
    {
        let slot = match self.locate(rid) {
            Ok(slot) => slot,
            Err(e) => {
                return Err(e);
            },
        };
        let from: usize = slot.offset as usize;
        let to: usize = from + slot.size_bytes as usize;
        let page_data = self.page_frame.data();
        let mut tuple_data: Vec<u8> = Vec::new();
        let mut i: usize = from;
        while i < to
            invariant
                from <= i <= to <= PAGE_SIZE,
                page_data@ == self.bytes(),
                tuple_data@ == self.bytes().subrange(from as int, i as int),
            decreases to - i,
        {
            tuple_data.push(page_data[i]);
            assert(tuple_data@ =~= self.bytes().subrange(from as int, i + 1));
            i = i + 1;
        }
        Ok((slot.metadata, Tuple::new(tuple_data)))
    }

    /// Borrows the tuple that `rid` names from the page.
    pub fn get_tuple_ref(&self, rid: &RecordId) -> (r: Result<TupleRef<'a>, Error>)
        ensures
            match r {
                Ok(tuple) => lookup(self.bytes(), self.frame().page_id, *rid) == Some(
                    (tuple.spec_metadata(), tuple@),
                ),
                Err(Error::InvalidInput(s)) => !names_slot(self.bytes(), self.frame().page_id, *rid)
                    && s@ == rid.spec_to_string(),
                Err(Error::OutOfBounds) => names_slot(self.bytes(), self.frame().page_id, *rid)
                    && !readable(self.bytes(), rid.slot_id() as int),
                Err(_) => false,
            },
    {
        let slot = match self.locate(rid) {
            Ok(slot) => slot,
            Err(e) => {
                return Err(e);
            },
        };
        let from: usize = slot.offset as usize;
        let to: usize = from + slot.size_bytes as usize;
        let bytes = slice_subrange(self.page_frame.data(), from, to);
        Ok(TupleRef::new(bytes, slot.metadata))
    }
}

/// A read-write view of a frame as a table page.
pub struct TablePageMut<'a> {
    pub page_frame: &'a mut PageFrame,
}

impl<'a> TablePageMut<'a> {
    /// The frame under the view.
    pub open spec fn frame(&self) -> FrameView {
        self.page_frame@
    }

    /// The bytes of the page.
    pub open spec fn bytes(&self) -> Seq<u8> {
        self.frame().data
    }

    pub fn new(page_frame: &'a mut PageFrame) -> (page: TablePageMut<'a>)
        ensures
            page.frame() == old(page_frame)@,
            *final(page.page_frame) == *final(page_frame),
    {
        TablePageMut { page_frame }
    }

    /// The same page, for reading only.
    pub fn as_ref(&self) -> (page: TablePageRef<'_>)
        ensures
            page.frame() == self.frame(),
    {
        TablePageRef::new(&*self.page_frame)
    }

    pub fn page_id(&self) -> (page_id: PageId)
        ensures
            page_id == self.frame().page_id,
    {
        self.page_frame.page_id()
    }

    pub fn next_page_id(&self) -> (next: PageId)
        ensures
            next == header_of(self.bytes()).next_page_id,
    {
        self.as_ref().next_page_id()
    }

    pub fn tuple_count(&self) -> (count: u16)
        ensures
            count == header_of(self.bytes()).tuple_cnt,
    {
        self.as_ref().tuple_count()
    }

    pub fn deleted_tuple_count(&self) -> (count: u16)
        ensures
            count == header_of(self.bytes()).deleted_tuple_cnt,
    {
        self.as_ref().deleted_tuple_count()
    }

    /// Copies the tuple that `rid` names out of the page.
    pub fn get_tuple(&self, rid: &RecordId) -> (r: Result<(TupleMetadata, Tuple), Error>)
        ensures
            lookup_returns(self.bytes(), self.frame().page_id, *rid, r),
    {
        self.as_ref().get_tuple(rid)
    }

    /// Writes a fresh header: no tuples, and `next_page_id` as the page that
    /// follows this one.
    pub fn init_header(&mut self, next_page_id: PageId)
        ensures
            final(self).frame() == (FrameView {
                data: overwrite(
                    old(self).bytes(),
                    0,
                    header_bytes(
                        TablePageHeader { next_page_id, tuple_cnt: 0, deleted_tuple_cnt: 0 },
                    ),
                ),
                ..old(self).frame()
            }),
            *final(final(self).page_frame) == *final(old(self).page_frame),
    {
        let mut bytes: Vec<u8> = Vec::new();
        push_u64(&mut bytes, next_page_id);
        push_u16(&mut bytes, 0);
        push_u16(&mut bytes, 0);
        bytes.push(0);
        bytes.push(0);
        bytes.push(0);
        bytes.push(0);
        assert(bytes@ =~= header_bytes(
            TablePageHeader { next_page_id, tuple_cnt: 0, deleted_tuple_cnt: 0 },
        ));
        self.page_frame.write(0, bytes.as_slice());
    }

    pub fn set_next_page_id(&mut self, next_page_id: PageId)
        ensures
            final(self).frame() == (FrameView {
                data: overwrite(old(self).bytes(), 0, u64_bytes(next_page_id)),
                ..old(self).frame()
            }),
            *final(final(self).page_frame) == *final(old(self).page_frame),
    {
        let mut bytes: Vec<u8> = Vec::new();
        push_u64(&mut bytes, next_page_id);
        assert(bytes@ =~= u64_bytes(next_page_id));
        self.page_frame.write(0, bytes.as_slice());
    }

    pub fn set_tuple_count(&mut self, tuple_count: u16)
        ensures
            final(self).frame() == (FrameView {
                data: overwrite(old(self).bytes(), 8, u16_bytes(tuple_count)),
                ..old(self).frame()
            }),
            *final(final(self).page_frame) == *final(old(self).page_frame),
    {
        let mut bytes: Vec<u8> = Vec::new();
        push_u16(&mut bytes, tuple_count);
        assert(bytes@ =~= u16_bytes(tuple_count));
        self.page_frame.write(8, bytes.as_slice());
    }

    pub fn set_deleted_tuple_count(&mut self, deleted_tuple_count: u16)
        ensures
            final(self).frame() == (FrameView {
                data: overwrite(old(self).bytes(), 10, u16_bytes(deleted_tuple_count)),
                ..old(self).frame()
            }),
            *final(final(self).page_frame) == *final(old(self).page_frame),
    {
        let mut bytes: Vec<u8> = Vec::new();
        push_u16(&mut bytes, deleted_tuple_count);
        assert(bytes@ =~= u16_bytes(deleted_tuple_count));
        self.page_frame.write(10, bytes.as_slice());
    }

    /// Overwrites slot `i` of the slot array.
    pub fn set_slot(&mut self, i: u16, slot: TupleInfo)
        requires
            slot_start(i + 1) <= PAGE_SIZE,
        ensures
            final(self).frame() == (FrameView {
                data: overwrite(old(self).bytes(), slot_start(i as int), slot_bytes(slot)),
                ..old(self).frame()
            }),
            *final(final(self).page_frame) == *final(old(self).page_frame),
    {
        let mut bytes: Vec<u8> = Vec::new();
        push_u16(&mut bytes, slot.offset);
        push_u16(&mut bytes, slot.size_bytes);
        bytes.push(slot.metadata.is_deleted);
        bytes.push(0);
        assert(bytes@ =~= slot_bytes(slot));
        let at: usize = TABLE_PAGE_HEADER_SIZE + TUPLE_INFO_SIZE * (i as usize);
        self.page_frame.write(at, bytes.as_slice());
    }

    /// The slots of the page, in order.
    pub fn slot_array(&self) -> (slots: Vec<TupleInfo>)
        requires
            slots_fit(self.bytes()),
        ensures
            slots@.len() == tuple_count_of(self.bytes()),
            forall|i: int| 0 <= i < slots@.len() ==> slots@[i] == slot_of(self.bytes(), i),
    {
        self.as_ref().slot_array()
    }

    /// Where the next tuple would go, if the page has room for it.
    pub fn get_next_tuple_offset(&self, tuple: &Tuple) -> (r: Result<u16, Error>)
        ensures
            match r {
                Ok(offset) => insert_offset(self.bytes(), tuple@.len() as int) == Some(
                    offset as int,
                ),
                Err(Error::OutOfBounds) => insert_offset(self.bytes(), tuple@.len() as int)
                    is None,
                Err(_) => false,
            },
    {
        let count: usize = self.tuple_count() as usize;
        let slot_end_offset: usize = if count == 0 {
            PAGE_SIZE
        } else {
            if TABLE_PAGE_HEADER_SIZE + TUPLE_INFO_SIZE * count > PAGE_SIZE {
                return Err(Error::OutOfBounds);
            }
            self.as_ref().slot((count - 1) as u16).offset as usize
        };
        if slot_end_offset > PAGE_SIZE || tuple.tuple_size() > slot_end_offset {
            return Err(Error::OutOfBounds);
        }
        let tuple_offset: usize = slot_end_offset - tuple.tuple_size();
        if TABLE_PAGE_HEADER_SIZE + TUPLE_INFO_SIZE * (count + 1) > tuple_offset {
            return Err(Error::OutOfBounds);
        }
        Ok(tuple_offset as u16)
    }

    /// Stores a tuple in the page and returns the record id of its slot.
    pub fn insert_tuple(&mut self, meta: &TupleMetadata, tuple: &Tuple) -> (r: Result<
        RecordId,
        Error,
    >)
        ensures
            match r {
                Ok(rid) => {
                    &&& insert_offset(old(self).bytes(), tuple@.len() as int) is Some
                    &&& rid.page_id() == old(self).frame().page_id
                    &&& rid.slot_id() == tuple_count_of(old(self).bytes())
                    &&& final(self).frame() == (FrameView {
                        data: with_tuple(
                            old(self).bytes(),
                            insert_offset(old(self).bytes(), tuple@.len() as int).unwrap(),
                            *meta,
                            tuple@,
                        ),
                        ..old(self).frame()
                    })
                },
                Err(Error::OutOfBounds) => {
                    &&& insert_offset(old(self).bytes(), tuple@.len() as int) is None
                    &&& final(self).frame() == old(self).frame()
                },
                Err(_) => false,
            },
            *final(final(self).page_frame) == *final(old(self).page_frame),
    {
        let tuple_size: usize = tuple.tuple_size();
        let tuple_offset: u16 = match self.get_next_tuple_offset(tuple) {
            Ok(offset) => offset,
            Err(e) => {
                return Err(e);
            },
        };
        let tuple_count: u16 = self.tuple_count();
        self.page_frame.write(tuple_offset as usize, tuple.data().as_slice());

        let mut slot: Vec<u8> = Vec::new();
        push_u16(&mut slot, tuple_offset);
        push_u16(&mut slot, tuple_size as u16);
        slot.push(meta.is_deleted);
        slot.push(0);
        assert(slot@ =~= slot_bytes(
            TupleInfo { offset: tuple_offset, size_bytes: tuple_size as u16, metadata: *meta },
        ));
        let slot_at: usize = TABLE_PAGE_HEADER_SIZE + TUPLE_INFO_SIZE * (tuple_count as usize);
        self.page_frame.write(slot_at, slot.as_slice());

        let mut count: Vec<u8> = Vec::new();
        push_u16(&mut count, tuple_count + 1);
        assert(count@ =~= u16_bytes((tuple_count + 1) as u16));
        self.page_frame.write(8, count.as_slice());

        Ok(RecordId::new(self.page_id(), tuple_count))
    }

    /// Replaces the metadata of the tuple that `rid` names.
    pub fn update_tuple_metadata(&mut self, rid: &RecordId, metadata: TupleMetadata) -> (r: Result<
        (),
        Error,
    >)
        ensures
            match r {
                Ok(_) => {
                    &&& names_slot(old(self).bytes(), old(self).frame().page_id, *rid)
                    &&& slots_fit(old(self).bytes())
                    &&& final(self).frame() == (FrameView {
                        data: with_metadata(old(self).bytes(), rid.slot_id() as int, metadata),
                        ..old(self).frame()
                    })
                },
                Err(Error::InvalidInput(s)) => {
                    &&& !names_slot(old(self).bytes(), old(self).frame().page_id, *rid)
                    &&& s@ == rid.spec_to_string()
                    &&& final(self).frame() == old(self).frame()
                },
                Err(Error::OutOfBounds) => {
                    &&& names_slot(old(self).bytes(), old(self).frame().page_id, *rid)
                    &&& !slots_fit(old(self).bytes())
                    &&& final(self).frame() == old(self).frame()
                },
                Err(_) => false,
            },
            *final(final(self).page_frame) == *final(old(self).page_frame),
    {
        match self.as_ref().validate_record_id(rid) {
            Ok(_) => {},
            Err(e) => {
                return Err(e);
            },
        }
        let count: usize = self.tuple_count() as usize;
        if TABLE_PAGE_HEADER_SIZE + TUPLE_INFO_SIZE * count > PAGE_SIZE {
            return Err(Error::OutOfBounds);
        }
        let mut bytes: Vec<u8> = Vec::new();
        bytes.push(metadata.is_deleted);
        bytes.push(0);
        assert(bytes@ =~= seq![metadata.is_deleted, 0u8]);
        let at: usize = TABLE_PAGE_HEADER_SIZE + TUPLE_INFO_SIZE * (rid.slot_id() as usize) + 4;
        self.page_frame.write(at, bytes.as_slice());
        Ok(())
    }
}

} // verus!
