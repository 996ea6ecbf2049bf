use storage::buffer_pool::BufferPoolManager;
use storage::disk_manager::{DiskManager, DiskWrite};
use storage::error::Error;
use storage::frame_handle::{PageFrameMutHandle, PageFrameRefHandle};
use storage::lru_replacer::LruReplacer;
use storage::record_id::RecordId;
use storage::table_page::{TablePageMut, TablePageRef, TupleMetadata};
use storage::tuple::Tuple;
use storage::typedef::{INVALID_PAGE_ID, PAGE_SIZE};

/// The file of the engine, held in memory.
struct Disk {
    filename: String,
    file: Vec<u8>,
}

impl Disk {
    /// Performs the writes that the engine asked for, in order.
    fn take(&mut self, writes: &mut Vec<DiskWrite>) {
        for write in writes.drain(..) {
            let start = write.offset as usize;
            let end = start + write.data.len();
            if self.file.len() < end {
                self.file.resize(end, 0);
            }
            self.file[start..end].copy_from_slice(&write.data);
        }
    }

    /// What the file holds from the start of a page on, one page at most.
    fn raw(&self, page_id: u64) -> Vec<u8> {
        let start = match page_id.checked_mul(PAGE_SIZE as u64) {
            Some(start) if (start as usize) < self.file.len() => start as usize,
            _ => return Vec::new(),
        };
        let end = usize::min(start + PAGE_SIZE, self.file.len());
        self.file[start..end].to_vec()
    }
}

/// Creates the file `filename` anew and puts a pool of `pool_size` frames
/// over it.
fn open_pool(filename: &str, pool_size: usize) -> (BufferPoolManager<LruReplacer>, Disk) {
    let mut disk = Disk { filename: filename.to_string(), file: Vec::new() };
    let (disk_manager, clear) = DiskManager::new();
    disk.take(&mut vec![clear]);
    (BufferPoolManager::new(pool_size, disk_manager, LruReplacer::new()), disk)
}

/// The bytes to hand to a fetch: read from the file only for a page that is
/// not resident.
fn raw_for(bpm: &BufferPoolManager<LruReplacer>, disk: &Disk, page_id: u64) -> Vec<u8> {
    if bpm.contains_page(&page_id) {
        Vec::new()
    } else {
        disk.raw(page_id)
    }
}

fn create(
    bpm: &mut BufferPoolManager<LruReplacer>,
    disk: &mut Disk,
) -> Result<PageFrameMutHandle, Error> {
    let mut writes = Vec::new();
    let handle = bpm.create_page_handle(&mut writes);
    disk.take(&mut writes);
    handle
}

fn fetch(
    bpm: &mut BufferPoolManager<LruReplacer>,
    disk: &mut Disk,
    page_id: u64,
) -> Result<PageFrameRefHandle, Error> {
    let raw = raw_for(bpm, disk, page_id);
    let mut writes = Vec::new();
    let handle = bpm.fetch_page_handle(&page_id, &raw, &mut writes);
    disk.take(&mut writes);
    handle
}

fn fetch_mut(
    bpm: &mut BufferPoolManager<LruReplacer>,
    disk: &mut Disk,
    page_id: u64,
) -> Result<PageFrameMutHandle, Error> {
    let raw = raw_for(bpm, disk, page_id);
    let mut writes = Vec::new();
    let handle = bpm.fetch_page_mut_handle(&page_id, &raw, &mut writes);
    disk.take(&mut writes);
    handle
}

#[test]
fn test_create_pages_beyond_capacity() {
    let pool_size = 5;
    let (mut bpm, mut disk) = open_pool("test.db", pool_size);

    assert_eq!(pool_size, bpm.free_frame_count());

    {
        let mut handles = vec![];

        // fill the buffer pool with newly created pages
        // these pages should all be pinned
        for i in 0..pool_size {
            let page_handle = create(&mut bpm, &mut disk);
            assert!(page_handle.is_ok());
            handles.push(page_handle);
            assert_eq!(pool_size - i - 1, bpm.free_frame_count());
        }

        assert_eq!(0, bpm.free_frame_count());

        {
            // Create a new page when buffer pool has no free frame, should return None
            let page_handle = create(&mut bpm, &mut disk);
            assert!(page_handle.is_err());
        }

        handles.pop().unwrap().unwrap().release(&mut bpm);
        assert_eq!(1, bpm.free_frame_count());

        let page_handle = create(&mut bpm, &mut disk);
        assert!(page_handle.is_ok());
        page_handle.unwrap().release(&mut bpm);
        for handle in handles {
            handle.unwrap().release(&mut bpm);
        }
    }
    assert_eq!(5, bpm.free_frame_count());
}

#[test]
fn test_mut_handle_unpins_on_drop() {
    let (mut bpm, mut disk) = open_pool("test.db", 10);

    {
        let handle = create(&mut bpm, &mut disk);
        let handle = handle.unwrap();
        let cnt = handle.page_frame(&bpm).pin_count();
        assert_eq!(1, cnt);
        let frame_id = handle.frame_id();
        handle.release(&mut bpm);
        assert_eq!(0, bpm.frame(frame_id).pin_count());
        assert!(bpm.frame(frame_id).is_dirty());
    }
}

#[test]
fn test_table_page_with_buffer_pool() {
    let (mut bpm, mut disk) = open_pool("test.db", 10);

    let page_id;
    {
        let frame_handle = create(&mut bpm, &mut disk).unwrap();
        {
            let mut table_page = TablePageMut::new(frame_handle.page_frame_mut(&mut bpm));

            table_page.init_header(2);

            page_id = table_page.page_id();

            let header = table_page.as_ref().header();
            assert_eq!(header.next_page_id, 2);
            assert_eq!(header.tuple_cnt, 0);
            assert_eq!(header.deleted_tuple_cnt, 0);

            table_page.set_tuple_count(5);

            let updated_header = table_page.as_ref().header();
            assert_eq!(updated_header.tuple_cnt, 5);

            let slots = table_page.slot_array();
            assert_eq!(slots.len(), 5);

            let mut slot0 = slots[0];
            slot0.offset = 55;
            table_page.set_slot(0, slot0);
            let mut slot1 = slots[1];
            slot1.offset = 11;
            slot1.metadata.set_deleted(true);
            table_page.set_slot(1, slot1);
            let slots_mut = table_page.slot_array();
            assert_eq!(slots_mut[0].offset, 55);
            assert_eq!(slots_mut[1].offset, 11);
            assert_eq!(slots_mut[1].metadata.is_deleted(), true);

            table_page.set_tuple_count(3);

            let slots = table_page.slot_array();
            assert_eq!(slots.len(), 3);
            assert_eq!(slots[0].offset, 55);
            assert_eq!(slots[1].offset, 11);
            assert_eq!(slots[1].metadata.is_deleted(), true);
        }
        frame_handle.release(&mut bpm);
    }

    let frame_handle_1 = fetch(&mut bpm, &mut disk, page_id).unwrap();

    let table_page1 = TablePageRef::new(frame_handle_1.page_frame(&bpm));

    assert_eq!(1, table_page1.page_id());
    assert_eq!(2, table_page1.next_page_id());
    assert_eq!(3, table_page1.tuple_count());

    let slots = table_page1.slot_array();
    assert_eq!(slots.len(), 3);
    assert_eq!(slots[0].offset, 55);
    assert_eq!(slots[1].offset, 11);
    assert_eq!(slots[1].metadata.is_deleted(), true);
}

#[test]
fn test_insert_and_get_tuple() {
    let (mut bpm, mut disk) = open_pool("test.db", 10);

    let page_id;
    let insert_record_id;

    // tuple metadata
    let metadata = TupleMetadata::new(true);

    let tuple_data = vec![1, 2, 3, 1, 2, 3, 4, 5, 6, 7, 8];
    {
        let frame_handle = create(&mut bpm, &mut disk).unwrap();
        {
            let mut table_page = TablePageMut::new(frame_handle.page_frame_mut(&mut bpm));

            page_id = table_page.page_id();

            // Initialize page header
            table_page.init_header(2);
            assert_eq!(table_page.as_ref().header().tuple_cnt, 0);

            let tuple = Tuple::new(tuple_data.clone());

            // Insert the tuple
            let record_id = table_page.insert_tuple(&metadata, &tuple).unwrap();
            assert_eq!(table_page.tuple_count(), 1);

            insert_record_id = record_id.clone();

            // Retrieve the tuple
            let (retrieved_meta, retrieved_tuple) = table_page.get_tuple(&record_id).unwrap();

            // Ensure retrieved tuple matches inserted tuple
            assert_eq!(retrieved_meta.is_deleted(), metadata.is_deleted());
            assert_eq!(retrieved_tuple.data(), &tuple_data);
        }
        frame_handle.release(&mut bpm);
    }
    let frame_handle_1 = fetch(&mut bpm, &mut disk, page_id).unwrap();

    let table_page1 = TablePageRef::new(frame_handle_1.page_frame(&bpm));
    // Retrieve the tuple
    let (retrieved_meta, retrieved_tuple) = table_page1.get_tuple(&insert_record_id).unwrap();

    // Ensure retrieved tuple matches inserted tuple
    assert_eq!(retrieved_meta.is_deleted(), metadata.is_deleted());
    assert_eq!(retrieved_tuple.data(), &tuple_data);
}

#[test]
fn test_new_pool_is_all_free() {
    let (bpm, disk) = open_pool("test.db", 3);
    assert_eq!(bpm.capacity(), 3);
    assert_eq!(bpm.free_frame_count(), 3);
    assert!(!bpm.contains_page(&0));
    assert_eq!(bpm.frame_of(&1), None);
    for frame_id in 0..3 {
        let frame = bpm.frame(frame_id);
        assert_eq!(frame.page_id(), INVALID_PAGE_ID);
        assert_eq!(frame.pin_count(), 0);
        assert!(!frame.is_dirty());
        assert!(frame.data().iter().all(|b| *b == 0));
    }
    // opening the file cleared page 0
    assert_eq!(disk.filename, "test.db");
    assert_eq!(disk.file, vec![0u8; PAGE_SIZE]);
}

#[test]
fn test_create_page_uses_free_frames_in_order_and_zeroes_the_file() {
    let (mut bpm, mut disk) = open_pool("test.db", 3);
    let a = create(&mut bpm, &mut disk).unwrap();
    let b = create(&mut bpm, &mut disk).unwrap();
    assert_eq!((a.page_id(), a.frame_id()), (1, 0));
    assert_eq!((b.page_id(), b.frame_id()), (2, 1));
    assert_eq!(bpm.frame_of(&1), Some(0));
    assert_eq!(bpm.frame_of(&2), Some(1));
    assert_eq!(bpm.frame(0).pin_count(), 1);
    assert!(!bpm.frame(0).is_dirty());
    assert_eq!(disk.file.len(), 3 * PAGE_SIZE);
    assert!(disk.file.iter().all(|b| *b == 0));
    assert_eq!(bpm.remaining_accesses(), u64::MAX - 2);
}

#[test]
fn test_create_page_writes_are_in_order() {
    let (mut bpm, _disk) = open_pool("test.db", 1);
    let mut writes = Vec::new();
    let a = bpm.create_page_handle(&mut writes).unwrap();
    assert_eq!(writes.len(), 1);
    assert_eq!(writes[0].offset, PAGE_SIZE as u64);
    assert_eq!(writes[0].data, vec![0u8; PAGE_SIZE]);
    assert!(writes[0].sync);
    bpm.frame_mut(a.frame_id()).write(100, &[9, 8, 7]);
    a.release(&mut bpm);

    // the second page evicts the first, which is dirty: first the zeroes of
    // the new page, then the bytes of the old one
    let b = bpm.create_page_handle(&mut writes).unwrap();
    assert_eq!(b.frame_id(), 0);
    assert_eq!(writes.len(), 3);
    assert_eq!(writes[1].offset, 2 * PAGE_SIZE as u64);
    assert_eq!(writes[1].data, vec![0u8; PAGE_SIZE]);
    assert_eq!(writes[2].offset, PAGE_SIZE as u64);
    assert_eq!(&writes[2].data[100..103], &[9, 8, 7]);
    assert_eq!(writes[2].data.len(), PAGE_SIZE);
    assert!(writes[2].sync);
    // the frame was handed over blank
    assert!(bpm.frame(b.frame_id()).data().iter().all(|x| *x == 0));
    assert!(!bpm.contains_page(&1));
}

#[test]
fn test_full_pool_still_allocates_the_page_id() {
    let (mut bpm, mut disk) = open_pool("test.db", 1);
    let a = create(&mut bpm, &mut disk).unwrap();
    assert_eq!(a.page_id(), 1);
    let mut writes = Vec::new();
    let r = bpm.create_page_handle(&mut writes);
    assert!(matches!(r, Err(Error::BufferPoolFull)));
    assert_eq!(writes.len(), 1);
    assert_eq!(writes[0].offset, 2 * PAGE_SIZE as u64);
    a.release(&mut bpm);
    let c = create(&mut bpm, &mut disk).unwrap();
    assert_eq!(c.page_id(), 3);
}

#[test]
fn test_fetch_hit_pins_again() {
    let (mut bpm, mut disk) = open_pool("test.db", 2);
    let a = create(&mut bpm, &mut disk).unwrap();
    let again = fetch(&mut bpm, &mut disk, a.page_id()).unwrap();
    assert_eq!(again.frame_id(), a.frame_id());
    assert_eq!(again.page_id(), 1);
    assert_eq!(bpm.frame(a.frame_id()).pin_count(), 2);
    assert_eq!(bpm.free_frame_count(), 1);
    again.release(&mut bpm);
    assert_eq!(bpm.frame(a.frame_id()).pin_count(), 1);
    assert!(!bpm.frame(a.frame_id()).is_dirty());
    assert_eq!(bpm.free_frame_count(), 1);
    a.release(&mut bpm);
    assert_eq!(bpm.frame(0).pin_count(), 0);
    assert!(bpm.frame(0).is_dirty());
    assert_eq!(bpm.free_frame_count(), 2);
}

#[test]
fn test_fetch_of_a_page_that_the_file_lacks_fails_and_changes_nothing() {
    let (mut bpm, mut disk) = open_pool("test.db", 2);
    let r = fetch(&mut bpm, &mut disk, 7);
    match r {
        Err(Error::IO(s)) => assert_eq!(s, "7"),
        _ => panic!("expected an IO error"),
    }
    assert_eq!(bpm.free_frame_count(), 2);
    assert!(!bpm.contains_page(&7));
    // bytes offered for a page that was never allocated do not count
    let mut writes = Vec::new();
    let r = bpm.fetch_page_handle(&7, &vec![5u8; PAGE_SIZE], &mut writes);
    assert!(matches!(r, Err(Error::IO(_))));
    assert!(writes.is_empty());
}

#[test]
fn test_fetch_errors() {
    let (mut bpm, mut disk) = open_pool("test.db", 1);
    let a = create(&mut bpm, &mut disk).unwrap();
    // page 0 exists but the only frame is pinned
    assert!(matches!(fetch(&mut bpm, &mut disk, 0), Err(Error::BufferPoolFull)));
    a.release(&mut bpm);
    // a page beyond what the file can address
    let mut writes = Vec::new();
    let r = bpm.fetch_page_handle(&INVALID_PAGE_ID, &[], &mut writes);
    assert!(matches!(r, Err(Error::ArithmeticOverflow)));
    // a resident page is not read again, whatever is offered for it
    let hit = bpm.fetch_page_handle(&1, &vec![0u8; PAGE_SIZE - 1], &mut writes).unwrap();
    assert_eq!(hit.frame_id(), 0);
    assert!(writes.is_empty());
    hit.release(&mut bpm);
}

#[test]
fn test_short_and_deleted_pages_are_missing() {
    let (mut bpm, mut disk) = open_pool("test.db", 2);
    let a = create(&mut bpm, &mut disk).unwrap();
    a.release(&mut bpm);
    let b = create(&mut bpm, &mut disk).unwrap();
    b.release(&mut bpm);
    let mut writes = Vec::new();
    assert!(bpm.delete_page(&1, &mut writes).is_ok());
    disk.take(&mut writes);
    assert!(!bpm.contains_page(&1));
    assert_eq!(disk.file[PAGE_SIZE], 1);
    match fetch(&mut bpm, &mut disk, 1) {
        Err(Error::IO(s)) => assert_eq!(s, "1"),
        _ => panic!("a deallocated page must not come back"),
    }
    let mut writes = Vec::new();
    let short = vec![0u8; PAGE_SIZE - 1];
    assert!(matches!(bpm.fetch_page_handle(&0, &short, &mut writes), Err(Error::IO(_))));
    assert!(matches!(bpm.fetch_page_handle(&0, &[], &mut writes), Err(Error::IO(_))));
    assert_eq!(bpm.free_frame_count(), 2);
}

#[test]
fn test_delete_page_returns_the_frame() {
    let (mut bpm, mut disk) = open_pool("test.db", 2);
    let a = create(&mut bpm, &mut disk).unwrap();
    let frame_id = a.frame_id();
    bpm.frame_mut(frame_id).write(0, &[3, 3, 3]);
    a.release(&mut bpm);
    let mut writes = Vec::new();
    assert!(bpm.delete_page(&1, &mut writes).is_ok());
    assert_eq!(writes.len(), 1);
    assert_eq!(writes[0].offset, PAGE_SIZE as u64);
    assert_eq!(writes[0].data, vec![1u8]);
    assert!(!writes[0].sync);
    assert_eq!(bpm.frame(frame_id).page_id(), INVALID_PAGE_ID);
    assert!(!bpm.frame(frame_id).is_dirty());
    assert!(bpm.frame(frame_id).data().iter().all(|b| *b == 0));
    assert_eq!(bpm.free_frame_count(), 2);
    // a page that is not resident is left alone
    let mut writes = Vec::new();
    assert!(bpm.delete_page(&9, &mut writes).is_ok());
    assert!(writes.is_empty());
    // the freed frame goes to the back of the free list
    let b = create(&mut bpm, &mut disk).unwrap();
    assert_eq!(b.frame_id(), 1);
    let c = create(&mut bpm, &mut disk).unwrap();
    assert_eq!(c.frame_id(), 0);
}

#[test]
fn test_unpin_of_a_page_that_is_not_resident_does_nothing() {
    let (mut bpm, _disk) = open_pool("test.db", 2);
    bpm.unpin_page(&5, true);
    assert_eq!(bpm.free_frame_count(), 2);
}

#[test]
fn test_pin_blocks_eviction() {
    let (mut bpm, mut disk) = open_pool("test.db", 3);
    let a = create(&mut bpm, &mut disk).unwrap();
    let b = create(&mut bpm, &mut disk).unwrap();
    let c = create(&mut bpm, &mut disk).unwrap();
    assert!(matches!(create(&mut bpm, &mut disk), Err(Error::BufferPoolFull)));
    let b_frame = b.frame_id();
    let b_page = b.page_id();
    b.release(&mut bpm);
    let d = create(&mut bpm, &mut disk).unwrap();
    assert_eq!(d.frame_id(), b_frame);
    assert!(!bpm.contains_page(&b_page));
    assert!(bpm.contains_page(&a.page_id()));
    assert!(bpm.contains_page(&c.page_id()));
    assert!(bpm.contains_page(&d.page_id()));
}

#[test]
fn test_eviction_takes_the_least_recently_used_page() {
    let (mut bpm, mut disk) = open_pool("test.db", 3);
    let a = create(&mut bpm, &mut disk).unwrap();
    let b = create(&mut bpm, &mut disk).unwrap();
    let c = create(&mut bpm, &mut disk).unwrap();
    let (pa, pb, pc) = (a.page_id(), b.page_id(), c.page_id());
    c.release(&mut bpm);
    b.release(&mut bpm);
    a.release(&mut bpm);
    // touch page a again, so that b is the oldest
    fetch(&mut bpm, &mut disk, pa).unwrap().release(&mut bpm);
    let d = create(&mut bpm, &mut disk).unwrap();
    assert!(bpm.contains_page(&pa));
    assert!(!bpm.contains_page(&pb));
    assert!(bpm.contains_page(&pc));
    d.release(&mut bpm);
}

#[test]
fn test_persistence_across_eviction() {
    let (mut bpm, mut disk) = open_pool("test.db", 2);
    let tuple_data = vec![42u8, 43, 44, 45];
    let page_id;
    let rid;
    {
        let handle = create(&mut bpm, &mut disk).unwrap();
        page_id = handle.page_id();
        {
            let mut page = TablePageMut::new(handle.page_frame_mut(&mut bpm));
            page.init_header(INVALID_PAGE_ID);
            rid = page.insert_tuple(&TupleMetadata::new(false), &Tuple::new(tuple_data.clone()))
                .unwrap();
        }
        handle.release(&mut bpm);
    }
    // exhaust the pool, so that the page is evicted
    let x = create(&mut bpm, &mut disk).unwrap();
    let y = create(&mut bpm, &mut disk).unwrap();
    assert!(!bpm.contains_page(&page_id));
    x.release(&mut bpm);
    y.release(&mut bpm);

    let handle = fetch(&mut bpm, &mut disk, page_id).unwrap();
    let page = TablePageRef::new(handle.page_frame(&bpm));
    let (meta, tuple) = page.get_tuple(&rid).unwrap();
    assert!(!meta.is_deleted());
    assert_eq!(tuple.data(), &tuple_data);
    assert_eq!(rid, RecordId::new(page_id, 0));
}

#[test]
fn test_pin_unpin_balance() {
    let pool_size = 4;
    let (mut bpm, mut disk) = open_pool("test.db", pool_size);
    for round in 0..10u64 {
        let a = create(&mut bpm, &mut disk).unwrap();
        let b = fetch(&mut bpm, &mut disk, a.page_id()).unwrap();
        let c = fetch_mut(&mut bpm, &mut disk, 1 + round / 2).unwrap();
        c.release(&mut bpm);
        a.release(&mut bpm);
        b.release(&mut bpm);
        assert_eq!(bpm.free_frame_count(), pool_size);
    }
}
